//! Color and icon resolution for file entries.

use vstd::prelude::*;
use crate::cloud_status::CloudStatus;
use crate::color::{BC_BLACK, BC_LIGHT_GREY, BC_MASK, FC_MASK};
use crate::file_attribute_map::{ATTRIBUTE_PRECEDENCE, precedence_flags};
use crate::file_info::{FileInfo, FILE_ATTRIBUTE_DIRECTORY, FILE_ATTRIBUTE_MAP, FILE_ATTRIBUTE_REPARSE_POINT, IO_REPARSE_TAG_MOUNT_POINT, IO_REPARSE_TAG_SYMLINK, attribute_map_seq};
use crate::text::{chars_of, lower_range, lower_seq, string_of};
use super::{Config, ConfigView, FileAttrStyle, FileDisplayStyle};

verus! {

/// Index of the last occurrence of `c` in `s`.
pub open spec fn last_index_of(s: Seq<char>, c: char) -> Option<int>
    decreases s.len(),
{
    if s.len() == 0 {
        None
    } else if s.last() == c {
        Some(s.len() - 1)
    } else {
        last_index_of(s.drop_last(), c)
    }
}

/// The lookup key of a file name's extension: the extension with its
/// leading dot, in lowercase.  A name has an extension when it holds a dot
/// after its first character; "." and ".." have none.
pub open spec fn extension_key(name: Seq<char>) -> Option<Seq<char>> {
    if name == "."@ || name == ".."@ {
        None
    } else {
        match last_index_of(name, '.') {
            Some(i) => if i > 0 {
                Some(lower_seq(name.skip(i)))
            } else {
                None
            },
            None => None,
        }
    }
}

/// `attr`, with the background of `default_attr` when it has none.
pub open spec fn with_default_background(attr: u16, default_attr: u16) -> u16 {
    if attr & BC_MASK == 0 {
        attr | (default_attr & BC_MASK)
    } else {
        attr
    }
}

/// A color whose foreground stays readable: without a background it takes
/// the default background, and where the foreground equals the background
/// the background becomes black (for a bright or light grey background) or
/// light grey.
pub open spec fn visible_color(color_attr: u16, default_attr: u16) -> u16 {
    let fore = color_attr & FC_MASK;
    let back = if color_attr & BC_MASK == 0 {
        default_attr & BC_MASK
    } else {
        color_attr & BC_MASK
    };
    if (fore << 4u16) == back {
        fore | (if back & 0x80 != 0 || back == BC_LIGHT_GREY {
            BC_BLACK
        } else {
            BC_LIGHT_GREY
        })
    } else {
        fore | back
    }
}

/// The color of the first flag of `flags`, from index `i` on, that is set in
/// `attrs` and has a configured color.
pub open spec fn attr_color_from(
    colors: Map<u32, FileAttrStyle>,
    attrs: u32,
    flags: Seq<u32>,
    i: int,
) -> Option<u16>
    decreases flags.len() - i,
{
    if i < 0 || i >= flags.len() {
        None
    } else if attrs & flags[i] != 0 && colors.contains_key(flags[i]) {
        Some(colors[flags[i]].attr)
    } else {
        attr_color_from(colors, attrs, flags, i + 1)
    }
}

/// The flags of the attribute display map, in display order.
pub open spec fn display_flags() -> Seq<u32> {
    attribute_map_seq().map_values(|e: (u32, char)| e.0)
}

/// The text color of a file: a configured file-attribute color (attributes
/// taken in display order), else the directory color for a directory, else
/// the extension color, else the default color; without a background it
/// takes the default background.
pub open spec fn text_attr_for(m: ConfigView, attrs: u32, name: Seq<char>) -> u16 {
    let d = m.attributes[0];
    match attr_color_from(m.file_attr_colors, attrs, display_flags(), 0) {
        Some(c) => with_default_background(c, d),
        None => if attrs & FILE_ATTRIBUTE_DIRECTORY != 0 {
            with_default_background(m.attributes[6], d)
        } else {
            match extension_key(name) {
                Some(k) => if m.extension_colors.contains_key(k) {
                    with_default_background(m.extension_colors[k], d)
                } else {
                    with_default_background(d, d)
                },
                None => with_default_background(d, d),
            }
        },
    }
}

/// An icon table entry as an icon: '\0' means no icon.
pub open spec fn icon_of(c: char) -> Option<char> {
    if c == '\0' {
        None
    } else {
        Some(c)
    }
}

/// Style of a directory before the attribute layer: the directory color,
/// and the icon of a well-known directory name (case-insensitive), else the
/// symbolic-link or junction icon of a reparse point, else the folder icon.
pub open spec fn directory_style(m: ConfigView, name: Seq<char>, attrs: u32, tag: u32) -> FileDisplayStyle {
    let key = lower_seq(name);
    let t = m.attributes[6];
    if m.well_known_dir_icons.contains_key(key) {
        let ic = m.well_known_dir_icons[key];
        FileDisplayStyle { text_attr: t, icon_code_point: icon_of(ic), icon_suppressed: ic == '\0' }
    } else if attrs & FILE_ATTRIBUTE_REPARSE_POINT != 0 {
        let ic = if tag == IO_REPARSE_TAG_SYMLINK {
            m.icon_symlink
        } else if tag == IO_REPARSE_TAG_MOUNT_POINT {
            m.icon_junction
        } else {
            m.icon_directory_default
        };
        FileDisplayStyle { text_attr: t, icon_code_point: Some(ic), icon_suppressed: false }
    } else {
        FileDisplayStyle {
            text_attr: t,
            icon_code_point: Some(m.icon_directory_default),
            icon_suppressed: false,
        }
    }
}

/// Style of a non-directory before the attribute layer: the default color
/// and the file (or symbolic-link) icon, overridden by the extension's
/// color and icon where the tables have them.
pub open spec fn file_style(m: ConfigView, name: Seq<char>, attrs: u32, tag: u32) -> FileDisplayStyle {
    let fallback = if attrs & FILE_ATTRIBUTE_REPARSE_POINT != 0 && tag == IO_REPARSE_TAG_SYMLINK {
        m.icon_symlink
    } else {
        m.icon_file_default
    };
    let base = FileDisplayStyle {
        text_attr: m.attributes[0],
        icon_code_point: Some(fallback),
        icon_suppressed: false,
    };
    match extension_key(name) {
        None => base,
        Some(k) => FileDisplayStyle {
            text_attr: if m.extension_colors.contains_key(k) {
                m.extension_colors[k]
            } else {
                base.text_attr
            },
            icon_code_point: if m.extension_icons.contains_key(k) {
                icon_of(m.extension_icons[k])
            } else {
                base.icon_code_point
            },
            icon_suppressed: if m.extension_icons.contains_key(k) {
                m.extension_icons[k] == '\0'
            } else {
                base.icon_suppressed
            },
        },
    }
}

/// One step of the attribute layer: where flag `f` is set, its configured
/// color and icon replace those of `s`.
pub open spec fn attr_step(m: ConfigView, attrs: u32, s: FileDisplayStyle, f: u32) -> FileDisplayStyle {
    if attrs & f == 0 {
        s
    } else {
        FileDisplayStyle {
            text_attr: if m.file_attr_colors.contains_key(f) {
                m.file_attr_colors[f].attr
            } else {
                s.text_attr
            },
            icon_code_point: if m.file_attr_icons.contains_key(f) {
                icon_of(m.file_attr_icons[f])
            } else {
                s.icon_code_point
            },
            icon_suppressed: if m.file_attr_icons.contains_key(f) {
                m.file_attr_icons[f] == '\0'
            } else {
                s.icon_suppressed
            },
        }
    }
}

/// The attribute layer applied for the precedence entries from index `k`
/// to the end, lowest priority first, so that the highest overwrites last.
pub open spec fn attr_layers(m: ConfigView, attrs: u32, s: FileDisplayStyle, k: int) -> FileDisplayStyle
    decreases 9 - k,
{
    if k < 0 || k >= 9 {
        s
    } else {
        attr_step(m, attrs, attr_layers(m, attrs, s, k + 1), precedence_flags()[k])
    }
}

/// Color and icon of a file entry.
pub open spec fn display_style_for(m: ConfigView, name: Seq<char>, attrs: u32, tag: u32) -> FileDisplayStyle {
    let d = m.attributes[0];
    let base = if attrs & FILE_ATTRIBUTE_DIRECTORY != 0 {
        directory_style(m, name, attrs, tag)
    } else {
        file_style(m, name, attrs, tag)
    };
    let s = attr_layers(m, attrs, base, 0);
    FileDisplayStyle {
        text_attr: visible_color(with_default_background(s.text_attr, d), d),
        ..s
    }
}

/// Icon of a cloud status; none for a file outside cloud storage.
pub open spec fn cloud_icon_for(m: ConfigView, status: CloudStatus) -> Option<char> {
    match status {
        CloudStatus::NotCloud => None,
        CloudStatus::CloudOnly => Some(m.icon_cloud_only),
        CloudStatus::Local => Some(m.icon_locally_available),
        CloudStatus::Pinned => Some(m.icon_always_local),
    }
}

/// A resolved color is readable: its foreground differs from its
/// background.
pub proof fn lemma_visible_color_readable(color_attr: u16, default_attr: u16)
    ensures
        ((visible_color(color_attr, default_attr) & 0x0F) << 4u16) != visible_color(color_attr, default_attr) & 0xF0,
{
    let r = visible_color(color_attr, default_attr);
    assert(((r & 0x0F) << 4u16) != r & 0xF0) by (bit_vector)
        requires
            r == (if ((color_attr & 0x0F) << 4u16) == (if color_attr & 0xF0 == 0 {
                default_attr & 0xF0
            } else {
                color_attr & 0xF0
            }) {
                (color_attr & 0x0F) | (if (if color_attr & 0xF0 == 0 {
                    default_attr & 0xF0
                } else {
                    color_attr & 0xF0
                }) & 0x80 != 0 || (if color_attr & 0xF0 == 0 {
                    default_attr & 0xF0
                } else {
                    color_attr & 0xF0
                }) == 0x70 {
                    0x00u16
                } else {
                    0x70u16
                })
            } else {
                (color_attr & 0x0F) | (if color_attr & 0xF0 == 0 {
                    default_attr & 0xF0
                } else {
                    color_attr & 0xF0
                })
            }),
    ;
}

/// Without a configured color for any attribute of the entry, the
/// attribute layer keeps the color.
proof fn lemma_layers_keep_color(m: ConfigView, attrs: u32, s: FileDisplayStyle, k: int)
    requires
        forall|f: u32| attrs & f != 0 ==> !(#[trigger] m.file_attr_colors.contains_key(f)),
    ensures
        attr_layers(m, attrs, s, k).text_attr == s.text_attr,
    decreases 9 - k,
{
    if 0 <= k < 9 {
        lemma_layers_keep_color(m, attrs, s, k + 1);
        let f = precedence_flags()[k];
        assert(attrs & f != 0 ==> !m.file_attr_colors.contains_key(f));
    }
}

/// Without a configured color for any attribute of the entry, no
/// attribute color is found.
proof fn lemma_no_attr_color(m: ConfigView, attrs: u32, flags: Seq<u32>, i: int)
    requires
        forall|f: u32| attrs & f != 0 ==> !(#[trigger] m.file_attr_colors.contains_key(f)),
    ensures
        attr_color_from(m.file_attr_colors, attrs, flags, i) is None,
    decreases flags.len() - i,
{
    if 0 <= i < flags.len() {
        assert(attrs & flags[i] != 0 ==> !m.file_attr_colors.contains_key(flags[i]));
        lemma_no_attr_color(m, attrs, flags, i + 1);
    }
}

/// The color a listing shows for a file is the file's text color
/// (`get_text_attr_for_file`), made visible against its background, when
/// no attribute of the entry has a configured color: for a file that is
/// the extension's color where the extension table has one (so "main.cpp"
/// shows the ".cpp" color), and for a directory the directory color.
pub proof fn lemma_display_color_is_text_color(m: ConfigView, name: Seq<char>, attrs: u32, tag: u32)
    requires
        forall|f: u32| attrs & f != 0 ==> !(#[trigger] m.file_attr_colors.contains_key(f)),
    ensures
        display_style_for(m, name, attrs, tag).text_attr == visible_color(text_attr_for(m, attrs, name), m.attributes[0]),
        attrs & FILE_ATTRIBUTE_DIRECTORY == 0 ==> (extension_key(name) matches Some(k) ==> (m.extension_colors.contains_key(k)
            ==> text_attr_for(m, attrs, name) == with_default_background(m.extension_colors[k], m.attributes[0]))),
{
    let base = if attrs & FILE_ATTRIBUTE_DIRECTORY != 0 {
        directory_style(m, name, attrs, tag)
    } else {
        file_style(m, name, attrs, tag)
    };
    lemma_layers_keep_color(m, attrs, base, 0);
    lemma_no_attr_color(m, attrs, display_flags(), 0);
}

/// `attr`, with the background of `default_attr` when it has none.
pub fn inherit_background(attr: u16, default_attr: u16) -> (r: u16)
    ensures
        r == with_default_background(attr, default_attr),
{
    if attr & BC_MASK == 0 {
        attr | (default_attr & BC_MASK)
    } else {
        attr
    }
}

/// A color whose foreground stays readable against its background.
pub fn ensure_visible_color_attr(color_attr: u16, default_attr: u16) -> (r: u16)
    ensures
        r == visible_color(color_attr, default_attr),
{
    let fore = color_attr & FC_MASK;
    let mut back = color_attr & BC_MASK;
    let default_back = default_attr & BC_MASK;
    if back == 0 {
        back = default_back;
    }
    assert(fore <= 15) by (bit_vector)
        requires
            fore == color_attr & 0x0Fu16,
    ;
    if (fore << 4u16) == back {
        let contrast_back = if back & 0x80 != 0 || back == BC_LIGHT_GREY {
            BC_BLACK
        } else {
            BC_LIGHT_GREY
        };
        return fore | contrast_back;
    }
    fore | back
}

/// Index of the last occurrence of `c` in `v`.
fn last_index(v: &Vec<char>, c: char) -> (r: Option<usize>)
    ensures
        r matches Some(i) ==> i < v.len() && last_index_of(v@, c) == Some(i as int),
        r is None ==> last_index_of(v@, c) is None,
{
    let mut i = v.len();
    assert(v@.take(i as int) =~= v@);
    while i > 0
        invariant
            i <= v.len(),
            last_index_of(v@, c) == last_index_of(v@.take(i as int), c),
        decreases i,
    {
        assert(v@.take(i as int).drop_last() =~= v@.take(i - 1));
        if v[i - 1] == c {
            return Some(i - 1);
        }
        i = i - 1;
    }
    None
}

/// The lookup key of a file name's extension, as a string.
pub fn extension_key_of(name: &str) -> (r: Option<String>)
    ensures
        r matches Some(k) ==> extension_key(name@) == Some(k@),
        r is None ==> extension_key(name@) is None,
{
    let v = chars_of(name);
    let n = v.len();
    proof {
        reveal_strlit(".");
        reveal_strlit("..");
    }
    if (n == 1 && v[0] == '.') || (n == 2 && v[0] == '.' && v[1] == '.') {
        assert(name@ == "."@ || name@ == ".."@);
        return None;
    }
    assert(name@ != "."@ && name@ != ".."@) by {
        if name@ == "."@ {
            assert(v@.len() == 1);
            assert(v@[0] == '.');
        }
        if name@ == ".."@ {
            assert(v@.len() == 2);
            assert(v@[0] == '.');
            assert(v@[1] == '.');
        }
    }
    match last_index(&v, '.') {
        Some(i) => {
            if i > 0 {
                let k = lower_range(&v, i, n);
                assert(v@.subrange(i as int, n as int) =~= name@.skip(i as int));
                Some(string_of(&k))
            } else {
                None
            }
        },
        None => None,
    }
}

impl Config {
    /// First configured color among the display-map flags set in
    /// `file_attributes`.
    fn file_attr_color(&self, file_attributes: u32) -> (r: Option<u16>)
        ensures
            r == attr_color_from(self@.file_attr_colors, file_attributes, display_flags(), 0),
    {
        let mut i: usize = 0;
        while i < 9
            invariant
                i <= 9,
                attr_color_from(self@.file_attr_colors, file_attributes, display_flags(), 0)
                    == attr_color_from(self@.file_attr_colors, file_attributes, display_flags(), i as int),
            decreases 9 - i,
        {
            let flag = FILE_ATTRIBUTE_MAP[i].0;
            assert(flag == display_flags()[i as int]);
            if file_attributes & flag != 0 {
                match self.file_attr_colors.get(&flag) {
                    Some(style) => {
                        return Some(style.attr);
                    },
                    None => {},
                }
            }
            i = i + 1;
        }
        None
    }

    /// Text color of a file, from its attributes and name.
    pub fn get_text_attr_for_file(&self, file_attributes: u32, file_name: &str) -> (r: u16)
        ensures
            r == text_attr_for(self@, file_attributes, file_name@),
    {
        let default_attr = self.attributes[0];
        match self.file_attr_color(file_attributes) {
            Some(c) => {
                return inherit_background(c, default_attr);
            },
            None => {},
        }
        if file_attributes & FILE_ATTRIBUTE_DIRECTORY != 0 {
            return inherit_background(self.attributes[6], default_attr);
        }
        match extension_key_of(file_name) {
            Some(k) => {
                match self.extension_colors.get(k.as_str()) {
                    Some(c) => inherit_background(*c, default_attr),
                    None => inherit_background(default_attr, default_attr),
                }
            },
            None => inherit_background(default_attr, default_attr),
        }
    }

    /// Icon shown for a cloud status.
    pub fn get_cloud_status_icon(&self, status: CloudStatus) -> (r: Option<char>)
        ensures
            r == cloud_icon_for(self@, status),
    {
        match status {
            CloudStatus::NotCloud => None,
            CloudStatus::CloudOnly => Some(self.icon_cloud_only),
            CloudStatus::Local => Some(self.icon_locally_available),
            CloudStatus::Pinned => Some(self.icon_always_local),
        }
    }

    /// Style of a directory before the attribute layer.
    fn resolve_directory_style(&self, file_info: &FileInfo) -> (r: FileDisplayStyle)
        ensures
            r == directory_style(self@, file_info.file_name@, file_info.file_attributes, file_info.reparse_tag),
    {
        let v = chars_of(file_info.file_name.as_str());
        let lv = lower_range(&v, 0, v.len());
        assert(v@.subrange(0, v@.len() as int) =~= v@);
        let key = string_of(&lv);
        let t = self.attributes[6];
        match self.well_known_dir_icons.get(key.as_str()) {
            Some(ic) => {
                let icon = if *ic == '\0' {
                    None
                } else {
                    Some(*ic)
                };
                return FileDisplayStyle { text_attr: t, icon_code_point: icon, icon_suppressed: *ic == '\0' };
            },
            None => {},
        }
        let icon = if file_info.file_attributes & FILE_ATTRIBUTE_REPARSE_POINT != 0 {
            if file_info.reparse_tag == IO_REPARSE_TAG_SYMLINK {
                self.icon_symlink
            } else if file_info.reparse_tag == IO_REPARSE_TAG_MOUNT_POINT {
                self.icon_junction
            } else {
                self.icon_directory_default
            }
        } else {
            self.icon_directory_default
        };
        FileDisplayStyle { text_attr: t, icon_code_point: Some(icon), icon_suppressed: false }
    }

    /// Style of a non-directory before the attribute layer.
    fn resolve_file_style(&self, file_info: &FileInfo) -> (r: FileDisplayStyle)
        ensures
            r == file_style(self@, file_info.file_name@, file_info.file_attributes, file_info.reparse_tag),
    {
        let fallback = if file_info.file_attributes & FILE_ATTRIBUTE_REPARSE_POINT != 0
            && file_info.reparse_tag == IO_REPARSE_TAG_SYMLINK {
            self.icon_symlink
        } else {
            self.icon_file_default
        };
        let base = FileDisplayStyle {
            text_attr: self.attributes[0],
            icon_code_point: Some(fallback),
            icon_suppressed: false,
        };
        match extension_key_of(file_info.file_name.as_str()) {
            None => base,
            Some(k) => {
                let text_attr = match self.extension_colors.get(k.as_str()) {
                    Some(c) => *c,
                    None => base.text_attr,
                };
                match self.extension_icons.get(k.as_str()) {
                    Some(ic) => {
                        let icon = if *ic == '\0' {
                            None
                        } else {
                            Some(*ic)
                        };
                        FileDisplayStyle { text_attr, icon_code_point: icon, icon_suppressed: *ic == '\0' }
                    },
                    None => FileDisplayStyle { text_attr, ..base },
                }
            },
        }
    }

    /// One step of the attribute layer.
    fn resolve_attr_step(&self, attrs: u32, s: FileDisplayStyle, f: u32) -> (r: FileDisplayStyle)
        ensures
            r == attr_step(self@, attrs, s, f),
    {
        if attrs & f == 0 {
            return s;
        }
        let text_attr = match self.file_attr_colors.get(&f) {
            Some(st) => st.attr,
            None => s.text_attr,
        };
        match self.file_attr_icons.get(&f) {
            Some(ic) => {
                let icon = if *ic == '\0' {
                    None
                } else {
                    Some(*ic)
                };
                FileDisplayStyle { text_attr, icon_code_point: icon, icon_suppressed: *ic == '\0' }
            },
            None => FileDisplayStyle { text_attr, ..s },
        }
    }

    /// The attribute layer, walked from the lowest priority to the highest.
    fn resolve_file_attribute_style(&self, attrs: u32, s: FileDisplayStyle) -> (r: FileDisplayStyle)
        ensures
            r == attr_layers(self@, attrs, s, 0),
    {
        let mut cur = s;
        let mut k: usize = 9;
        while k > 0
            invariant
                k <= 9,
                cur == attr_layers(self@, attrs, s, k as int),
            decreases k,
        {
            let f = ATTRIBUTE_PRECEDENCE[k - 1].0;
            assert(f == precedence_flags()[k - 1]);
            cur = self.resolve_attr_step(attrs, cur, f);
            k = k - 1;
        }
        cur
    }

    /// Color and icon of a file entry: the directory or file style, then
    /// the file-attribute layer, then a readable color.
    pub fn get_display_style_for_file(&self, file_info: &FileInfo) -> (r: FileDisplayStyle)
        ensures
            r == display_style_for(
                self@,
                file_info.file_name@,
                file_info.file_attributes,
                file_info.reparse_tag,
            ),
    {
        let default_attr = self.attributes[0];
        let base = if file_info.file_attributes & FILE_ATTRIBUTE_DIRECTORY != 0 {
            self.resolve_directory_style(file_info)
        } else {
            self.resolve_file_style(file_info)
        };
        let s = self.resolve_file_attribute_style(file_info.file_attributes, base);
        let t = inherit_background(s.text_attr, default_attr);
        FileDisplayStyle { text_attr: ensure_visible_color_attr(t, default_attr), ..s }
    }
}

} // verus!
