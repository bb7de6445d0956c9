//! Console output buffering with colors.
//!
//! Text is gathered in a buffer, with an ANSI SGR sequence wherever the
//! color changes; writing the buffer out is left to the caller of
//! `Console::take_output`.  Line breaks are always emitted in the default
//! color, so that a background color does not bleed into the next line.

use vstd::prelude::*;
use std::sync::Arc;
use crate::ansi_codes::{sgr_text, write_sgr};
use crate::color::{ALL_FOREGROUND_COLORS, COLOR_COUNT};
use crate::config::{Config, Attribute, attr_from_name, attr_index};
use crate::text::{chars_of, find_char, find_ch, push_char, push_chars, slice_vec, string_of_range};

verus! {

/// Capacity reserved for the output buffer: 10 MiB.
pub const INITIAL_BUFFER_SIZE: usize = 10 * 1024 * 1024;

/// Buffered output as mathematical values: the text so far and the color
/// last emitted.
pub struct Out {
    pub buf: Seq<char>,
    pub prev: Option<u16>,
}

/// Output after switching to `attr`: an SGR sequence unless `attr` is
/// already current.
pub open spec fn with_color(o: Out, attr: u16) -> Out {
    if o.prev == Some(attr) {
        o
    } else {
        Out { buf: o.buf + sgr_text(attr), prev: Some(attr) }
    }
}

/// Output after appending `t` in the current color.
pub open spec fn with_text(o: Out, t: Seq<char>) -> Out {
    Out { buf: o.buf + t, prev: o.prev }
}

/// Output of the lines of `t` in color `attr`, each line break in color
/// `d`, starting in color `attr`.
pub open spec fn lines_out(o: Out, t: Seq<char>, attr: u16, d: u16) -> Out
    decreases t.len(),
{
    match find_char(t, '\n') {
        Some(i) => if 0 <= i < t.len() {
            lines_out(
                with_color(with_text(with_color(with_text(o, t.take(i)), d), seq!['\n']), attr),
                t.skip(i + 1),
                attr,
                d,
            )
        } else {
            o
        },
        None => if t.len() > 0 {
            with_text(o, t)
        } else {
            o
        },
    }
}

/// Output of `t` in color `attr`, line breaks in color `d`.
pub open spec fn multiline_out(o: Out, t: Seq<char>, attr: u16, d: u16) -> Out {
    lines_out(with_color(o, attr), t, attr, d)
}

/// Output of text with color markers: `{Name}` switches to the color of
/// the display item `Name`; a brace that starts no known marker is shown
/// as it is.  `cur` is the color in effect; `attrs` is the color table.
pub open spec fn markup_out(o: Out, t: Seq<char>, cur: u16, attrs: Seq<u16>) -> Out
    decreases t.len(),
{
    let d = attrs[0];
    if t.len() == 0 {
        o
    } else {
        match find_char(t, '{') {
            None => multiline_out(o, t, cur, d),
            Some(b) => if 0 <= b < t.len() {
                let o1 = multiline_out(o, t.take(b), cur, d);
                let after = t.skip(b + 1);
                match find_char(after, '}') {
                    Some(c) => if 0 <= c < after.len() {
                        match attr_from_name(after.take(c)) {
                            Some(a) => markup_out(o1, after.skip(c + 1), attrs[attr_index(a)], attrs),
                            None => markup_out(multiline_out(o1, seq!['{'], cur, d), after, cur, attrs),
                        }
                    } else {
                        o1
                    },
                    None => multiline_out(o1, t.skip(b), cur, d),
                }
            } else {
                o
            },
        }
    }
}

/// The color at position `idx` of the sixteen foreground colors, or the
/// next one where it equals the background, and the position after it.
pub open spec fn rainbow_step(idx: nat, background: u16) -> (u16, nat) {
    let c0 = ALL_FOREGROUND_COLORS@[(idx % 16) as int];
    if c0 == background {
        (ALL_FOREGROUND_COLORS@[((idx + 1) % 16) as int], ((idx + 2) % 16) as nat)
    } else {
        (c0, ((idx + 1) % 16) as nat)
    }
}

/// Colors cycled through by `print_colorful_string` from position `idx`
/// of the sixteen: each character takes the next foreground color,
/// skipping the one that equals the background.
pub open spec fn rainbow_out(o: Out, t: Seq<char>, idx: nat, background: u16) -> Out
    decreases t.len(),
{
    if t.len() == 0 {
        o
    } else {
        let (color, next) = rainbow_step(idx, background);
        rainbow_out(
            with_text(with_color(o, (color | (background << 4u16)) as u16), seq![t[0]]),
            t.drop_first(),
            next,
            background,
        )
    }
}

/// Colored console output gathered in a buffer.
pub struct Console {
    buffer: String,
    prev_attr: Option<u16>,
    console_width: u32,
    config: Arc<Config>,
}

impl Console {
    /// The output gathered so far.
    pub closed spec fn out(&self) -> Out {
        Out { buf: self.buffer@, prev: self.prev_attr }
    }

    /// The color table in use.
    pub closed spec fn attrs(&self) -> Seq<u16> {
        self.config.attributes@
    }

    /// The console's width in columns.
    pub closed spec fn spec_width(&self) -> u32 {
        self.console_width
    }

    /// An empty console of `width` columns using the colors of `config`.
    pub fn new(config: Arc<Config>, width: u32) -> (c: Self)
        ensures
            c.out() == (Out { buf: Seq::empty(), prev: None }),
            c.attrs() == config.attributes@,
            c.spec_width() == width,
    {
        Console { buffer: String::new(), prev_attr: None, console_width: width, config }
    }

    /// Width of the console in columns.
    pub fn width(&self) -> (r: u32)
        ensures
            r == self.spec_width(),
    {
        self.console_width
    }

    /// The configuration whose colors are used.
    pub fn config(&self) -> (r: &Config)
        ensures
            r.attributes@ == self.attrs(),
    {
        &self.config
    }

    /// Switches the output color to `attr`.
    pub fn set_color(&mut self, attr: u16)
        ensures
            final(self).out() == with_color(old(self).out(), attr),
            final(self).attrs() == old(self).attrs(),
            final(self).spec_width() == old(self).spec_width(),
    {
        if self.prev_attr.is_some() && self.prev_attr.unwrap() == attr {
            return;
        }
        self.prev_attr = Some(attr);
        write_sgr(&mut self.buffer, attr);
    }

    /// Appends text in the current color.
    fn put_chars(&mut self, v: &Vec<char>, lo: usize, hi: usize)
        requires
            lo <= hi <= v.len(),
        ensures
            final(self).out() == with_text(old(self).out(), v@.subrange(lo as int, hi as int)),
            final(self).attrs() == old(self).attrs(),
            final(self).spec_width() == old(self).spec_width(),
    {
        let s = slice_vec(v, lo, hi);
        push_chars(&mut self.buffer, &s);
    }

    /// The next color of the cycle and the position after it.
    fn next_rainbow_color(idx: usize, background: u16) -> (r: (u16, usize))
        requires
            idx < 16,
            background < 16,
        ensures
            r.0 == rainbow_step(idx as nat, background).0,
            r.1 == rainbow_step(idx as nat, background).1,
            r.1 < 16,
    {
        let mut color = ALL_FOREGROUND_COLORS[idx];
        let mut next = (idx + 1) % COLOR_COUNT;
        if color == background {
            color = ALL_FOREGROUND_COLORS[next];
            next = (next + 1) % COLOR_COUNT;
        }
        (color, next)
    }

    /// Appends one character in the current color.
    fn put_char(&mut self, c: char)
        ensures
            final(self).out() == with_text(old(self).out(), seq![c]),
            final(self).attrs() == old(self).attrs(),
            final(self).spec_width() == old(self).spec_width(),
    {
        push_char(&mut self.buffer, c);
        assert(self.buffer@ =~= old(self).buffer@ + seq![c]);
    }

    /// Appends one character in color `attr`.
    pub fn putchar(&mut self, attr: u16, ch: char)
        ensures
            final(self).out() == with_text(with_color(old(self).out(), attr), seq![ch]),
            final(self).attrs() == old(self).attrs(),
            final(self).spec_width() == old(self).spec_width(),
    {
        self.set_color(attr);
        self.put_char(ch);
    }

    /// Appends `v[lo..hi]` in color `attr`, with line breaks in the
    /// default color.
    fn process_multiline(&mut self, v: &Vec<char>, lo: usize, hi: usize, attr: u16)
        requires
            lo <= hi <= v.len(),
            old(self).attrs().len() == 17,
        ensures
            final(self).out() == multiline_out(old(self).out(), v@.subrange(lo as int, hi as int), attr, old(self).attrs()[0]),
            final(self).attrs() == old(self).attrs(),
            final(self).spec_width() == old(self).spec_width(),
    {
        let d = self.config.attributes[0];
        self.set_color(attr);
        let mut pos = lo;
        while pos < hi
            invariant
                lo <= pos <= hi <= v.len(),
                self.attrs() == old(self).attrs(),
                self.spec_width() == old(self).spec_width(),
                d == self.attrs()[0],
                lines_out(self.out(), v@.subrange(pos as int, hi as int), attr, d) == multiline_out(
                    old(self).out(),
                    v@.subrange(lo as int, hi as int),
                    attr,
                    d,
                ),
            decreases hi - pos,
        {
            let ghost t = v@.subrange(pos as int, hi as int);
            let rest = slice_vec(v, pos, hi);
            match find_ch(&rest, '\n') {
                Some(i) => {
                    self.put_chars(v, pos, pos + i);
                    self.set_color(d);
                    self.put_char('\n');
                    self.set_color(attr);
                    assert(v@.subrange(pos as int, (pos + i) as int) =~= t.take(i as int));
                    assert(v@.subrange((pos + i + 1) as int, hi as int) =~= t.skip(i + 1));
                    pos = pos + i + 1;
                },
                None => {
                    if pos < hi {
                        self.put_chars(v, pos, hi);
                    }
                    pos = hi;
                    assert(v@.subrange(hi as int, hi as int) =~= Seq::<char>::empty());
                },
            }
        }
        assert(v@.subrange(pos as int, hi as int) =~= Seq::<char>::empty());
    }

    /// Appends text in color `attr`, line breaks in the default color.
    pub fn printf(&mut self, attr: u16, text: &str)
        requires
            old(self).attrs().len() == 17,
        ensures
            final(self).out() == multiline_out(old(self).out(), text@, attr, old(self).attrs()[0]),
            final(self).attrs() == old(self).attrs(),
            final(self).spec_width() == old(self).spec_width(),
    {
        let v = chars_of(text);
        assert(v@.subrange(0, v@.len() as int) =~= v@);
        self.process_multiline(&v, 0, v.len(), attr);
    }

    /// Appends text in the color of display item `item`.
    pub fn printf_attr(&mut self, item: Attribute, text: &str)
        requires
            old(self).attrs().len() == 17,
        ensures
            final(self).out() == multiline_out(
                old(self).out(),
                text@,
                old(self).attrs()[attr_index(item)],
                old(self).attrs()[0],
            ),
            final(self).attrs() == old(self).attrs(),
            final(self).spec_width() == old(self).spec_width(),
    {
        let attr = self.config.attributes[item.index()];
        self.printf(attr, text);
    }

    /// Appends a line in the color of display item `item`, and a line
    /// break in the default color.
    pub fn puts(&mut self, item: Attribute, text: &str)
        requires
            old(self).attrs().len() == 17,
        ensures
            final(self).out() == with_text(
                with_color(
                    multiline_out(old(self).out(), text@, old(self).attrs()[attr_index(item)], old(self).attrs()[0]),
                    old(self).attrs()[0],
                ),
                seq!['\n'],
            ),
            final(self).attrs() == old(self).attrs(),
            final(self).spec_width() == old(self).spec_width(),
    {
        self.printf_attr(item, text);
        let d = self.config.attributes[0];
        self.set_color(d);
        self.put_char('\n');
    }

    /// Appends text with `{Name}` color markers, starting in the default
    /// color.
    pub fn color_printf(&mut self, text: &str)
        requires
            old(self).attrs().len() == 17,
        ensures
            final(self).out() == markup_out(old(self).out(), text@, old(self).attrs()[0], old(self).attrs()),
            final(self).attrs() == old(self).attrs(),
            final(self).spec_width() == old(self).spec_width(),
    {
        let v = chars_of(text);
        let n = v.len();
        let ghost attrs = self.attrs();
        let mut cur = self.config.attributes[0];
        let mut pos: usize = 0;
        assert(v@.skip(0) =~= v@);
        while pos < n
            invariant
                pos <= n == v.len(),
                v@ == text@,
                self.attrs() == attrs,
                attrs.len() == 17,
                self.spec_width() == old(self).spec_width(),
                markup_out(self.out(), v@.skip(pos as int), cur, attrs) == markup_out(
                    old(self).out(),
                    text@,
                    attrs[0],
                    attrs,
                ),
            decreases n - pos,
        {
            let ghost t = v@.skip(pos as int);
            let rest = slice_vec(&v, pos, n);
            assert(rest@ =~= t);
            match find_ch(&rest, '{') {
                None => {
                    self.process_multiline(&v, pos, n, cur);
                    assert(v@.subrange(pos as int, n as int) =~= t);
                    assert(v@.skip(n as int) =~= Seq::<char>::empty());
                    pos = n;
                },
                Some(b) => {
                    self.process_multiline(&v, pos, pos + b, cur);
                    assert(v@.subrange(pos as int, (pos + b) as int) =~= t.take(b as int));
                    let ghost after = t.skip(b + 1);
                    let after_v = slice_vec(&v, pos + b + 1, n);
                    assert(after_v@ =~= after);
                    match find_ch(&after_v, '}') {
                        Some(c) => {
                            let name = string_of_range(&after_v, 0, c);
                            assert(after_v@.subrange(0, c as int) =~= after.take(c as int));
                            match Attribute::from_name(name.as_str()) {
                                Some(a) => {
                                    cur = self.config.attributes[a.index()];
                                    assert(v@.skip((pos + b + 1 + c + 1) as int) =~= after.skip(c + 1));
                                    pos = pos + b + 1 + c + 1;
                                },
                                None => {
                                    let mut brace: Vec<char> = Vec::new();
                                    brace.push('{');
                                    self.process_multiline(&brace, 0, 1, cur);
                                    assert(brace@.subrange(0, 1) =~= seq!['{']);
                                    assert(v@.skip((pos + b + 1) as int) =~= after);
                                    pos = pos + b + 1;
                                },
                            }
                        },
                        None => {
                            self.process_multiline(&v, pos + b, n, cur);
                            assert(v@.subrange((pos + b) as int, n as int) =~= t.skip(b as int));
                            assert(v@.skip(n as int) =~= Seq::<char>::empty());
                            pos = n;
                        },
                    }
                },
            }
        }
        assert(v@.skip(n as int) =~= Seq::<char>::empty());
    }

    /// `color_printf`, then a line break in the default color.
    pub fn color_puts(&mut self, text: &str)
        requires
            old(self).attrs().len() == 17,
        ensures
            final(self).out() == with_text(
                with_color(markup_out(old(self).out(), text@, old(self).attrs()[0], old(self).attrs()), old(self).attrs()[0]),
                seq!['\n'],
            ),
            final(self).attrs() == old(self).attrs(),
            final(self).spec_width() == old(self).spec_width(),
    {
        self.color_printf(text);
        let d = self.config.attributes[0];
        self.set_color(d);
        self.put_char('\n');
    }

    /// Appends each character of `text` in the next of the sixteen
    /// foreground colors, on the default background, skipping the color of
    /// the background.
    pub fn print_colorful_string(&mut self, text: &str)
        requires
            old(self).attrs().len() == 17,
        ensures
            final(self).out() == rainbow_out(old(self).out(), text@, 0, (old(self).attrs()[0] >> 4u16) & 0x0F),
            final(self).attrs() == old(self).attrs(),
            final(self).spec_width() == old(self).spec_width(),
    {
        let d = self.config.attributes[0];
        let background = (d >> 4u16) & 0x0F;
        assert(background < 16) by (bit_vector)
            requires
                background == (d >> 4u16) & 0x0F,
        ;
        let v = chars_of(text);
        let mut idx: usize = 0;
        let mut i: usize = 0;
        assert(ALL_FOREGROUND_COLORS@.len() == 16);
        assert(v@.skip(0) =~= v@);
        while i < v.len()
            invariant
                i <= v.len(),
                v@ == text@,
                idx < 16,
                background < 16,
                self.attrs() == old(self).attrs(),
                self.spec_width() == old(self).spec_width(),
                rainbow_out(self.out(), v@.skip(i as int), idx as nat, background) == rainbow_out(
                    old(self).out(),
                    text@,
                    0,
                    background,
                ),
            decreases v.len() - i,
        {
            let ghost t = v@.skip(i as int);
            let (color, next) = Console::next_rainbow_color(idx, background);
            idx = next;
            let attr: u16 = color | (background << 4u16);
            self.putchar(attr, v[i]);
            assert(t.drop_first() =~= v@.skip(i + 1));
            i = i + 1;
        }
        assert(v@.skip(v@.len() as int) =~= Seq::<char>::empty());
    }

    /// Appends text as it is, with no color change.
    pub fn write_raw(&mut self, text: &str)
        ensures
            final(self).out() == with_text(old(self).out(), text@),
            final(self).attrs() == old(self).attrs(),
            final(self).spec_width() == old(self).spec_width(),
    {
        let v = chars_of(text);
        push_chars(&mut self.buffer, &v);
    }

    /// Hands out the gathered output for writing and starts afresh; the
    /// next output sets its color again.
    pub fn take_output(&mut self) -> (r: String)
        ensures
            r@ == old(self).out().buf,
            final(self).out() == (Out { buf: Seq::empty(), prev: None }),
            final(self).attrs() == old(self).attrs(),
            final(self).spec_width() == old(self).spec_width(),
    {
        let mut r = String::new();
        std::mem::swap(&mut r, &mut self.buffer);
        self.prev_attr = None;
        r
    }
}

} // verus!
