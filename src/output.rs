use vstd::prelude::*;
use vstd::string::*;

use crate::result::{error_message, ConsoleError, ConsoleResult};
use crate::text::is_prefix;

verus! {

/// An opaque RGBA color, one byte per channel.
#[derive(Debug, Clone, Copy, PartialEq, Eq, Structural)]
pub struct Rgba {
    pub r: u8,
    pub g: u8,
    pub b: u8,
    pub a: u8,
}

pub open spec fn white_color() -> Rgba {
    Rgba { r: 255, g: 255, b: 255, a: 255 }
}

pub open spec fn red_color() -> Rgba {
    Rgba { r: 255, g: 0, b: 0, a: 255 }
}

pub open spec fn cyan_color() -> Rgba {
    Rgba { r: 0, g: 255, b: 255, a: 255 }
}

impl Rgba {
    /// Opaque white, for ordinary output.
    pub fn white() -> (c: Rgba)
        ensures
            c == white_color(),
    {
        Rgba { r: 255, g: 255, b: 255, a: 255 }
    }

    /// Opaque red, for errors.
    pub fn red() -> (c: Rgba)
        ensures
            c == red_color(),
    {
        Rgba { r: 255, g: 0, b: 0, a: 255 }
    }

    /// Opaque cyan, for the prompt marker.
    pub fn cyan() -> (c: Rgba)
        ensures
            c == cyan_color(),
    {
        Rgba { r: 0, g: 255, b: 255, a: 255 }
    }
}

/// One colored fragment of output.
#[derive(Debug)]
pub struct TextSpan {
    color: Rgba,
    text: String,
}

impl View for TextSpan {
    type V = (Rgba, Seq<char>);

    closed spec fn view(&self) -> (Rgba, Seq<char>) {
        (self.color, self.text@)
    }
}

impl TextSpan {
    pub fn new(color: Rgba, text: String) -> (r: TextSpan)
        ensures
            r@ == (color, text@),
    {
        TextSpan { color, text }
    }

    pub fn color(&self) -> (r: Rgba)
        ensures
            r == self@.0,
    {
        self.color
    }

    pub fn text(&self) -> (r: &str)
        ensures
            r@ == self@.1,
    {
        self.text.as_str()
    }
}

/// What `str::trim_end` leaves of a text.
pub uninterp spec fn trimmed_end(s: Seq<char>) -> Seq<char>;

/// Relies on `str::trim_end`: the text without its trailing whitespace, which
/// is a prefix of the text.
#[verifier::external_body]
fn trim_end(s: &str) -> (r: &str)
    ensures
        r@ == trimmed_end(s@),
        is_prefix(r@, s@),
{
    s.trim_end()
}

/// Texts joined with a line break between neighbours.
pub open spec fn joined(s: Seq<Seq<char>>) -> Seq<char>
    decreases s.len(),
{
    if s.len() == 0 {
        Seq::empty()
    } else if s.len() == 1 {
        s[0]
    } else {
        joined(s.drop_last()) + "\n"@ + s.last()
    }
}

/// The span that a result renders as, in the given colors.
pub open spec fn result_span(r: ConsoleResult, normal: Rgba, error: Rgba) -> (Rgba, Seq<char>) {
    match r.0 {
        Ok(t) => (normal, t@),
        Err(e) => (error, error_message(e)),
    }
}

/// An ordered log of colored spans.
pub struct ColoredConsole {
    buf: Vec<TextSpan>,
    normal: Rgba,
    error: Rgba,
}

impl View for ColoredConsole {
    type V = Seq<(Rgba, Seq<char>)>;

    closed spec fn view(&self) -> Seq<(Rgba, Seq<char>)> {
        self.buf@.map_values(|t: TextSpan| t@)
    }
}

impl ColoredConsole {
    /// The color of ordinary output.
    pub closed spec fn normal(&self) -> Rgba {
        self.normal
    }

    /// The color of errors.
    pub closed spec fn error(&self) -> Rgba {
        self.error
    }

    /// An empty log with white output and red errors.
    pub fn new() -> (r: ColoredConsole)
        ensures
            r@ == Seq::<(Rgba, Seq<char>)>::empty(),
            r.normal() == white_color(),
            r.error() == red_color(),
    {
        Self::with_colors(Rgba::white(), Rgba::red())
    }

    /// An empty log with the given colors.
    pub fn with_colors(normal: Rgba, error: Rgba) -> (r: ColoredConsole)
        ensures
            r@ == Seq::<(Rgba, Seq<char>)>::empty(),
            r.normal() == normal,
            r.error() == error,
    {
        let r = ColoredConsole { buf: Vec::new(), normal, error };
        assert(r@ =~= Seq::<(Rgba, Seq<char>)>::empty());
        r
    }

    pub fn normal_color(&self) -> (r: Rgba)
        ensures
            r == self.normal(),
    {
        self.normal
    }

    pub fn error_color(&self) -> (r: Rgba)
        ensures
            r == self.error(),
    {
        self.error
    }

    pub fn len(&self) -> (r: usize)
        ensures
            r == self@.len(),
    {
        self.buf.len()
    }

    pub fn span(&self, i: usize) -> (r: &TextSpan)
        requires
            i < self@.len(),
        ensures
            r@ == self@[i as int],
    {
        &self.buf[i]
    }

    /// Appends one span.
    pub fn write(&mut self, span: TextSpan)
        ensures
            final(self)@ == old(self)@.push(span@),
            final(self).normal() == old(self).normal(),
            final(self).error() == old(self).error(),
    {
        self.buf.push(span);
        assert(self@ =~= old(self)@.push(span@));
    }

    /// Appends `t` in color `c`.
    pub fn write_colored(&mut self, c: Rgba, t: &str)
        ensures
            final(self)@ == old(self)@.push((c, t@)),
            final(self).normal() == old(self).normal(),
            final(self).error() == old(self).error(),
    {
        self.write(TextSpan::new(c, t.to_string()));
    }

    /// Appends `s` in the ordinary color.
    pub fn write_str(&mut self, s: &str)
        ensures
            final(self)@ == old(self)@.push((old(self).normal(), s@)),
            final(self).normal() == old(self).normal(),
            final(self).error() == old(self).error(),
    {
        let c = self.normal;
        self.write_colored(c, s);
    }

    /// Appends the message of `e` in the error color.
    pub fn write_error(&mut self, e: &ConsoleError)
        ensures
            final(self)@ == old(self)@.push((old(self).error(), error_message(*e))),
            final(self).normal() == old(self).normal(),
            final(self).error() == old(self).error(),
    {
        let c = self.error;
        let m = e.message();
        self.write_colored(c, m.as_str());
    }

    /// Appends the rendering of a result: its text, or its error's message.
    pub fn write_result(&mut self, result: ConsoleResult)
        ensures
            final(self)@ == old(self)@.push(result_span(result, old(self).normal(), old(self).error())),
            final(self).normal() == old(self).normal(),
            final(self).error() == old(self).error(),
    {
        match result.0 {
            Ok(output) => self.write_str(output.as_str()),
            Err(e) => self.write_error(&e),
        }
    }

    /// Appends already trimmed text as a line, unless it is empty.
    pub fn write_trimmed(&mut self, c: Rgba, trimmed: &str)
        ensures
            trimmed@.len() == 0 ==> final(self)@ == old(self)@,
            trimmed@.len() > 0 ==> final(self)@ == old(self)@.push((c, trimmed@ + "\n"@)),
            final(self).normal() == old(self).normal(),
            final(self).error() == old(self).error(),
    {
        if trimmed.unicode_len() > 0 {
            let mut line = trimmed.to_string();
            line.append("\n");
            self.write(TextSpan::new(c, line));
        }
    }

    /// Appends a span's text as one line, without its trailing whitespace;
    /// text that is all whitespace appends nothing.
    pub fn write_line(&mut self, span: TextSpan)
        ensures
            trimmed_end(span@.1).len() == 0 ==> final(self)@ == old(self)@,
            trimmed_end(span@.1).len() > 0 ==> final(self)@ == old(self)@.push(
                (span@.0, trimmed_end(span@.1) + "\n"@),
            ),
            final(self).normal() == old(self).normal(),
            final(self).error() == old(self).error(),
    {
        let t = trim_end(span.text.as_str());
        self.write_trimmed(span.color, t);
    }

    /// Drops every span.
    pub fn clear(&mut self)
        ensures
            final(self)@ == Seq::<(Rgba, Seq<char>)>::empty(),
            final(self).normal() == old(self).normal(),
            final(self).error() == old(self).error(),
    {
        self.buf.clear();
        assert(self@ =~= Seq::<(Rgba, Seq<char>)>::empty());
    }

    /// Moves every span of `other` to the end of this log.
    pub fn append(&mut self, other: &mut ColoredConsole)
        ensures
            final(self)@ == old(self)@ + old(other)@,
            final(other)@ == Seq::<(Rgba, Seq<char>)>::empty(),
            final(self).normal() == old(self).normal(),
            final(self).error() == old(self).error(),
            final(other).normal() == old(other).normal(),
            final(other).error() == old(other).error(),
    {
        self.buf.append(&mut other.buf);
        assert(self@ =~= old(self)@ + old(other)@);
        assert(other@ =~= Seq::<(Rgba, Seq<char>)>::empty());
    }

    /// All span texts, a line break between neighbours.
    pub fn flatten(&self) -> (r: String)
        ensures
            r@ == joined(self@.map_values(|s: (Rgba, Seq<char>)| s.1)),
    {
        let ghost texts = self@.map_values(|s: (Rgba, Seq<char>)| s.1);
        let mut out = String::new();
        let n = self.buf.len();
        let mut i: usize = 0;
        while i < n
            invariant
                n == self@.len(),
                texts == self@.map_values(|s: (Rgba, Seq<char>)| s.1),
                i <= n,
                out@ == joined(texts.take(i as int)),
            decreases n - i,
        {
            if i > 0 {
                out.append("\n");
            }
            out.append(self.buf[i].text.as_str());
            proof {
                let t = texts.take(i + 1);
                assert(t.drop_last() =~= texts.take(i as int));
                assert(t.last() == self.buf@[i as int].text@);
                if i == 0 {
                    assert(out@ =~= joined(t));
                }
            }
            i = i + 1;
        }
        assert(texts.take(n as int) =~= texts);
        out
    }
}

} // verus!
