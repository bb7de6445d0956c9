//! Built-in default tables: extension colors, file-attribute colors and
//! the icon maps.

use vstd::prelude::*;
use crate::color::{FC_GREEN, FC_CYAN, FC_MAGENTA, FC_BROWN, FC_DARK_GREY, FC_LIGHT_GREEN, FC_LIGHT_CYAN, FC_LIGHT_RED, FC_YELLOW, FC_WHITE};
use crate::icon_mapping::{DEFAULT_EXTENSION_ICONS, DEFAULT_WELL_KNOWN_DIR_ICONS};
use crate::text::{lower_seq, lower_str};
use super::{AttributeSource, Config, ConfigView, FileAttrStyle};

verus! {

/// Default colors by file extension (keys with a leading dot).
pub const EXTENSION_COLOR_DEFAULTS: [(&'static str, u16); 187] = [
    (".asm", FC_LIGHT_GREEN),
    (".cod", FC_GREEN),
    (".i", FC_GREEN),
    (".c", FC_LIGHT_GREEN),
    (".c++", FC_LIGHT_GREEN),
    (".cpp", FC_LIGHT_GREEN),
    (".cxx", FC_LIGHT_GREEN),
    (".h", FC_LIGHT_GREEN),
    (".hpp", FC_LIGHT_GREEN),
    (".hxx", FC_LIGHT_GREEN),
    (".rc", FC_LIGHT_GREEN),
    (".cs", FC_LIGHT_GREEN),
    (".csx", FC_LIGHT_GREEN),
    (".resx", FC_LIGHT_GREEN),
    (".xaml", FC_LIGHT_GREEN),
    (".js", FC_LIGHT_GREEN),
    (".mjs", FC_LIGHT_GREEN),
    (".cjs", FC_LIGHT_GREEN),
    (".jsx", FC_LIGHT_GREEN),
    (".ts", FC_LIGHT_GREEN),
    (".tsx", FC_LIGHT_GREEN),
    (".html", FC_LIGHT_GREEN),
    (".htm", FC_LIGHT_GREEN),
    (".xhtml", FC_LIGHT_GREEN),
    (".css", FC_LIGHT_GREEN),
    (".scss", FC_LIGHT_GREEN),
    (".sass", FC_LIGHT_GREEN),
    (".less", FC_LIGHT_GREEN),
    (".vue", FC_LIGHT_GREEN),
    (".svelte", FC_LIGHT_GREEN),
    (".py", FC_LIGHT_GREEN),
    (".pyw", FC_LIGHT_GREEN),
    (".ipynb", FC_LIGHT_GREEN),
    (".rs", FC_LIGHT_GREEN),
    (".jar", FC_LIGHT_GREEN),
    (".java", FC_LIGHT_GREEN),
    (".class", FC_LIGHT_GREEN),
    (".gradle", FC_LIGHT_GREEN),
    (".go", FC_LIGHT_GREEN),
    (".rb", FC_LIGHT_GREEN),
    (".erb", FC_LIGHT_GREEN),
    (".fs", FC_LIGHT_GREEN),
    (".fsx", FC_LIGHT_GREEN),
    (".fsi", FC_LIGHT_GREEN),
    (".lua", FC_LIGHT_GREEN),
    (".pl", FC_LIGHT_GREEN),
    (".pm", FC_LIGHT_GREEN),
    (".php", FC_LIGHT_GREEN),
    (".hs", FC_LIGHT_GREEN),
    (".dart", FC_LIGHT_GREEN),
    (".kt", FC_LIGHT_GREEN),
    (".kts", FC_LIGHT_GREEN),
    (".swift", FC_LIGHT_GREEN),
    (".scala", FC_LIGHT_GREEN),
    (".sc", FC_LIGHT_GREEN),
    (".sbt", FC_LIGHT_GREEN),
    (".clj", FC_LIGHT_GREEN),
    (".cljs", FC_LIGHT_GREEN),
    (".cljc", FC_LIGHT_GREEN),
    (".ex", FC_LIGHT_GREEN),
    (".exs", FC_LIGHT_GREEN),
    (".erl", FC_LIGHT_GREEN),
    (".groovy", FC_LIGHT_GREEN),
    (".jl", FC_LIGHT_GREEN),
    (".r", FC_LIGHT_GREEN),
    (".rmd", FC_LIGHT_GREEN),
    (".elm", FC_LIGHT_GREEN),
    (".xml", FC_BROWN),
    (".xsd", FC_BROWN),
    (".xsl", FC_BROWN),
    (".xslt", FC_BROWN),
    (".dtd", FC_BROWN),
    (".plist", FC_BROWN),
    (".manifest", FC_BROWN),
    (".json", FC_BROWN),
    (".toml", FC_BROWN),
    (".yml", FC_BROWN),
    (".yaml", FC_BROWN),
    (".ini", FC_BROWN),
    (".cfg", FC_BROWN),
    (".conf", FC_BROWN),
    (".config", FC_BROWN),
    (".properties", FC_BROWN),
    (".settings", FC_BROWN),
    (".reg", FC_BROWN),
    (".sql", FC_BROWN),
    (".sqlite", FC_BROWN),
    (".mdb", FC_BROWN),
    (".accdb", FC_BROWN),
    (".pgsql", FC_BROWN),
    (".db", FC_BROWN),
    (".csv", FC_BROWN),
    (".tsv", FC_BROWN),
    (".obj", FC_GREEN),
    (".lib", FC_GREEN),
    (".res", FC_GREEN),
    (".pch", FC_GREEN),
    (".pdb", FC_GREEN),
    (".wrn", FC_LIGHT_RED),
    (".err", FC_LIGHT_RED),
    (".log", FC_WHITE),
    (".bash", FC_LIGHT_RED),
    (".bat", FC_LIGHT_RED),
    (".cmd", FC_LIGHT_RED),
    (".dll", FC_LIGHT_CYAN),
    (".exe", FC_LIGHT_CYAN),
    (".ps1", FC_LIGHT_RED),
    (".psd1", FC_LIGHT_RED),
    (".psm1", FC_LIGHT_RED),
    (".ps1xml", FC_LIGHT_RED),
    (".sh", FC_LIGHT_RED),
    (".zsh", FC_LIGHT_RED),
    (".fish", FC_LIGHT_RED),
    (".sys", FC_LIGHT_CYAN),
    (".msi", FC_LIGHT_CYAN),
    (".msix", FC_LIGHT_CYAN),
    (".deb", FC_LIGHT_CYAN),
    (".rpm", FC_LIGHT_CYAN),
    (".sln", FC_MAGENTA),
    (".vcproj", FC_MAGENTA),
    (".csproj", FC_DARK_GREY),
    (".vcxproj", FC_MAGENTA),
    (".csxproj", FC_DARK_GREY),
    (".fsproj", FC_DARK_GREY),
    (".user", FC_DARK_GREY),
    (".ncb", FC_DARK_GREY),
    (".suo", FC_DARK_GREY),
    (".code-workspace", FC_DARK_GREY),
    (".!!!", FC_WHITE),
    (".1st", FC_WHITE),
    (".doc", FC_WHITE),
    (".docx", FC_WHITE),
    (".rtf", FC_WHITE),
    (".eml", FC_WHITE),
    (".md", FC_WHITE),
    (".markdown", FC_WHITE),
    (".rst", FC_WHITE),
    (".me", FC_WHITE),
    (".now", FC_WHITE),
    (".ppt", FC_WHITE),
    (".pptx", FC_WHITE),
    (".pdf", FC_WHITE),
    (".text", FC_WHITE),
    (".txt", FC_WHITE),
    (".xls", FC_WHITE),
    (".xlsx", FC_WHITE),
    (".7z", FC_MAGENTA),
    (".arj", FC_MAGENTA),
    (".gz", FC_MAGENTA),
    (".rar", FC_MAGENTA),
    (".tar", FC_MAGENTA),
    (".zip", FC_MAGENTA),
    (".xz", FC_MAGENTA),
    (".bz2", FC_MAGENTA),
    (".tgz", FC_MAGENTA),
    (".cab", FC_MAGENTA),
    (".zst", FC_MAGENTA),
    (".png", FC_CYAN),
    (".jpg", FC_CYAN),
    (".jpeg", FC_CYAN),
    (".gif", FC_CYAN),
    (".bmp", FC_CYAN),
    (".ico", FC_CYAN),
    (".svg", FC_CYAN),
    (".webp", FC_CYAN),
    (".mp3", FC_CYAN),
    (".wav", FC_CYAN),
    (".flac", FC_CYAN),
    (".mp4", FC_CYAN),
    (".avi", FC_CYAN),
    (".mkv", FC_CYAN),
    (".mov", FC_CYAN),
    (".ttf", FC_DARK_GREY),
    (".otf", FC_DARK_GREY),
    (".woff", FC_DARK_GREY),
    (".woff2", FC_DARK_GREY),
    (".cer", FC_YELLOW),
    (".crt", FC_YELLOW),
    (".pem", FC_YELLOW),
    (".key", FC_YELLOW),
    (".pfx", FC_YELLOW),
    (".dockerfile", FC_LIGHT_GREEN),
    (".dockerignore", FC_DARK_GREY),
    (".tf", FC_LIGHT_GREEN),
    (".tfvars", FC_LIGHT_GREEN),
    (".bicep", FC_LIGHT_GREEN),
    (".lock", FC_DARK_GREY),
];

/// A table of string keys as a sequence of character sequences.
pub open spec fn table_seq<V>(t: Seq<(&'static str, V)>) -> Seq<(Seq<char>, V)> {
    t.map_values(|e: (&'static str, V)| (e.0@, e.1))
}

/// `m` with every table entry inserted in order under its lowercased key.
pub open spec fn lowered_inserts<V>(m: Map<Seq<char>, V>, t: Seq<(Seq<char>, V)>) -> Map<Seq<char>, V>
    decreases t.len(),
{
    if t.len() == 0 {
        m
    } else {
        lowered_inserts(m, t.drop_last()).insert(lower_seq(t.last().0), t.last().1)
    }
}

/// `m` with `w` inserted under every lowercased table key, in order.
pub open spec fn lowered_keys_with<V, W>(m: Map<Seq<char>, W>, t: Seq<(Seq<char>, V)>, w: W) -> Map<Seq<char>, W>
    decreases t.len(),
{
    if t.len() == 0 {
        m
    } else {
        lowered_keys_with(m, t.drop_last(), w).insert(lower_seq(t.last().0), w)
    }
}

/// Extension colors after the defaults are added to `m`.
pub open spec fn init_extension_colors_view(m: Map<Seq<char>, u16>) -> Map<Seq<char>, u16> {
    lowered_inserts(m, table_seq(EXTENSION_COLOR_DEFAULTS@))
}

/// Extension color sources after the defaults are added to `m`.
pub open spec fn init_extension_colors_view_sources(m: Map<Seq<char>, AttributeSource>) -> Map<Seq<char>, AttributeSource> {
    lowered_keys_with(m, table_seq(EXTENSION_COLOR_DEFAULTS@), AttributeSource::Default)
}

/// Default file-attribute colors: hidden in dark grey, encrypted in light green.
pub open spec fn init_file_attr_colors_view() -> Map<u32, FileAttrStyle> {
    Map::<u32, FileAttrStyle>::empty().insert(
        0x02u32,
        FileAttrStyle { attr: FC_DARK_GREY, source: AttributeSource::Default },
    ).insert(0x4000u32, FileAttrStyle { attr: FC_LIGHT_GREEN, source: AttributeSource::Default })
}

/// Default extension icons.
pub open spec fn init_extension_icons_view() -> Map<Seq<char>, char> {
    lowered_inserts(Map::empty(), table_seq(DEFAULT_EXTENSION_ICONS@))
}

/// Sources of the default extension icons.
pub open spec fn init_extension_icon_sources_view() -> Map<Seq<char>, AttributeSource> {
    lowered_keys_with(Map::empty(), table_seq(DEFAULT_EXTENSION_ICONS@), AttributeSource::Default)
}

/// Default well-known directory icons.
pub open spec fn init_well_known_dir_icons_view() -> Map<Seq<char>, char> {
    lowered_inserts(Map::empty(), table_seq(DEFAULT_WELL_KNOWN_DIR_ICONS@))
}

/// Sources of the default well-known directory icons.
pub open spec fn init_well_known_dir_icon_sources_view() -> Map<Seq<char>, AttributeSource> {
    lowered_keys_with(Map::empty(), table_seq(DEFAULT_WELL_KNOWN_DIR_ICONS@), AttributeSource::Default)
}

impl Config {
    /// Adds the default extension colors, with the default source.
    pub fn initialize_extension_colors(&mut self)
        ensures
            final(self)@ == (ConfigView {
                extension_colors: init_extension_colors_view(old(self)@.extension_colors),
                extension_sources: init_extension_colors_view_sources(old(self)@.extension_sources),
                ..old(self)@
            }),
    {
        let ghost t = table_seq(EXTENSION_COLOR_DEFAULTS@);
        let mut i: usize = 0;
        while i < 187
            invariant
                i <= 187,
                t == table_seq(EXTENSION_COLOR_DEFAULTS@),
                t.len() == 187,
                self@ == (ConfigView {
                    extension_colors: lowered_inserts(old(self)@.extension_colors, t.take(i as int)),
                    extension_sources: lowered_keys_with(
                        old(self)@.extension_sources,
                        t.take(i as int),
                        AttributeSource::Default,
                    ),
                    ..old(self)@
                }),
            decreases 187 - i,
        {
            let (k, v) = EXTENSION_COLOR_DEFAULTS[i];
            self.extension_colors.insert(lower_str(k), v);
            self.extension_sources.insert(lower_str(k), AttributeSource::Default);
            i = i + 1;
            assert(t.take(i as int).drop_last() =~= t.take((i - 1) as int));
            assert(self@ =~= ConfigView {
                extension_colors: lowered_inserts(old(self)@.extension_colors, t.take(i as int)),
                extension_sources: lowered_keys_with(
                    old(self)@.extension_sources,
                    t.take(i as int),
                    AttributeSource::Default,
                ),
                ..old(self)@
            });
        }
        assert(t.take(187) =~= t);
    }

    /// Seeds the file-attribute colors: hidden files dark grey, encrypted
    /// files light green.
    pub fn initialize_file_attr_colors(&mut self)
        ensures
            final(self)@ == (ConfigView { file_attr_colors: init_file_attr_colors_view(), ..old(self)@ }),
    {
        self.file_attr_colors.clear();
        self.file_attr_colors.insert(0x02, FileAttrStyle { attr: FC_DARK_GREY, source: AttributeSource::Default });
        self.file_attr_colors.insert(0x4000, FileAttrStyle { attr: FC_LIGHT_GREEN, source: AttributeSource::Default });
        assert(self@ =~= ConfigView { file_attr_colors: init_file_attr_colors_view(), ..old(self)@ });
    }

    /// Seeds the extension icon map from the default icon table.
    pub fn initialize_extension_icons(&mut self)
        ensures
            final(self)@ == (ConfigView {
                extension_icons: init_extension_icons_view(),
                extension_icon_sources: init_extension_icon_sources_view(),
                ..old(self)@
            }),
    {
        self.extension_icons.clear();
        self.extension_icon_sources.clear();
        let ghost t = table_seq(DEFAULT_EXTENSION_ICONS@);
        let mut i: usize = 0;
        while i < 40
            invariant
                i <= 40,
                t == table_seq(DEFAULT_EXTENSION_ICONS@),
                t.len() == 40,
                self@ == (ConfigView {
                    extension_icons: lowered_inserts(Map::empty(), t.take(i as int)),
                    extension_icon_sources: lowered_keys_with(
                        Map::empty(),
                        t.take(i as int),
                        AttributeSource::Default,
                    ),
                    ..old(self)@
                }),
            decreases 40 - i,
        {
            let (k, v) = DEFAULT_EXTENSION_ICONS[i];
            self.extension_icons.insert(lower_str(k), v);
            self.extension_icon_sources.insert(lower_str(k), AttributeSource::Default);
            i = i + 1;
            assert(t.take(i as int).drop_last() =~= t.take((i - 1) as int));
            assert(self@ =~= ConfigView {
                extension_icons: lowered_inserts(Map::empty(), t.take(i as int)),
                extension_icon_sources: lowered_keys_with(
                    Map::empty(),
                    t.take(i as int),
                    AttributeSource::Default,
                ),
                ..old(self)@
            });
        }
        assert(t.take(40) =~= t);
    }

    /// Seeds the well-known directory icon map from the default icon table.
    pub fn initialize_well_known_dir_icons(&mut self)
        ensures
            final(self)@ == (ConfigView {
                well_known_dir_icons: init_well_known_dir_icons_view(),
                well_known_dir_icon_sources: init_well_known_dir_icon_sources_view(),
                ..old(self)@
            }),
    {
        self.well_known_dir_icons.clear();
        self.well_known_dir_icon_sources.clear();
        let ghost t = table_seq(DEFAULT_WELL_KNOWN_DIR_ICONS@);
        let mut i: usize = 0;
        while i < 12
            invariant
                i <= 12,
                t == table_seq(DEFAULT_WELL_KNOWN_DIR_ICONS@),
                t.len() == 12,
                self@ == (ConfigView {
                    well_known_dir_icons: lowered_inserts(Map::empty(), t.take(i as int)),
                    well_known_dir_icon_sources: lowered_keys_with(
                        Map::empty(),
                        t.take(i as int),
                        AttributeSource::Default,
                    ),
                    ..old(self)@
                }),
            decreases 12 - i,
        {
            let (k, v) = DEFAULT_WELL_KNOWN_DIR_ICONS[i];
            self.well_known_dir_icons.insert(lower_str(k), v);
            self.well_known_dir_icon_sources.insert(lower_str(k), AttributeSource::Default);
            i = i + 1;
            assert(t.take(i as int).drop_last() =~= t.take((i - 1) as int));
            assert(self@ =~= ConfigView {
                well_known_dir_icons: lowered_inserts(Map::empty(), t.take(i as int)),
                well_known_dir_icon_sources: lowered_keys_with(
                    Map::empty(),
                    t.take(i as int),
                    AttributeSource::Default,
                ),
                ..old(self)@
            });
        }
        assert(t.take(12) =~= t);
    }
}

} // verus!
