//! The text sink that the emitter drives.
//!
//! `XmlWriter` collects characters into a `String` and offers the seven
//! low-level operations the emitter needs.  Attribute values and character
//! data are escaped here, per [`escaped`]; the emitter never escapes
//! anything itself.  A writer may be bounded: one built with
//! [`XmlWriter::with_capacity`] reports an error from any operation that
//! pushes the output past the bound, which is how sink failure is modelled.
//! Operations append their full text before checking the bound, so on an
//! error the partial output is still present, and the caller is expected to
//! abort.

use vstd::prelude::*;
use vstd::string::StrSliceExecFns;
use vstd::string::StringExecFns;

verus! {

/// A writer operation failed: the output grew past the writer's bound.
#[derive(Clone, Copy, Debug, PartialEq, Eq)]
pub struct WriteError;

/// How one character appears inside attribute values and character data:
/// the five XML-special characters become entity references, every other
/// character stands for itself.
pub open spec fn escape_char(c: char) -> Seq<char> {
    if c == '&' {
        "&amp;"@
    } else if c == '<' {
        "&lt;"@
    } else if c == '>' {
        "&gt;"@
    } else if c == '\'' {
        "&apos;"@
    } else if c == '"' {
        "&quot;"@
    } else {
        seq![c]
    }
}

/// The escaping of the first `n` characters of `s`, in order.
pub open spec fn escaped_upto(s: Seq<char>, n: int) -> Seq<char>
    decreases n,
{
    if n <= 0 {
        Seq::empty()
    } else {
        escaped_upto(s, n - 1) + escape_char(s[n - 1])
    }
}

/// The escaping of a whole string.
pub open spec fn escaped(s: Seq<char>) -> Seq<char> {
    escaped_upto(s, s.len() as int)
}

/// Whether an output of `len` characters is within a writer's bound.
pub open spec fn fits(cap: Option<usize>, len: nat) -> bool {
    match cap {
        Option::None => true,
        Option::Some(c) => len <= c,
    }
}

pub struct XmlWriter {
    buf: String,
    cap: Option<usize>,
}

impl XmlWriter {
    /// The characters written so far.
    pub closed spec fn out(&self) -> Seq<char> {
        self.buf@
    }

    /// The bound this writer was built with, if any.
    pub closed spec fn cap(&self) -> Option<usize> {
        self.cap
    }

    /// An unbounded writer: no operation on it ever fails.
    pub fn new() -> (w: XmlWriter)
        ensures
            w.out() == Seq::<char>::empty(),
            w.cap() is None,
    {
        XmlWriter { buf: String::new(), cap: Option::None }
    }

    /// A bounded writer: an operation fails once the output exceeds
    /// `capacity` characters.
    pub fn with_capacity(capacity: usize) -> (w: XmlWriter)
        ensures
            w.out() == Seq::<char>::empty(),
            w.cap() == Option::Some(capacity),
    {
        XmlWriter { buf: String::new(), cap: Option::Some(capacity) }
    }

    /// Hands the collected output back.
    pub fn into_string(self) -> (r: String)
        ensures
            r@ == self.out(),
    {
        self.buf
    }

    /// Appends the escaping of `s` to the buffer.
    fn push_escaped(&mut self, s: &str)
        ensures
            final(self).out() == old(self).out() + escaped(s@),
            final(self).cap() == old(self).cap(),
    {
        let n = s.unicode_len();
        let mut i: usize = 0;
        while i < n
            invariant
                n == s@.len(),
                i <= n,
                self.out() == old(self).out() + escaped_upto(s@, i as int),
                self.cap() == old(self).cap(),
            decreases n - i,
        {
            let c = s.get_char(i);
            if c == '&' {
                self.buf.append("&amp;");
            } else if c == '<' {
                self.buf.append("&lt;");
            } else if c == '>' {
                self.buf.append("&gt;");
            } else if c == '\'' {
                self.buf.append("&apos;");
            } else if c == '"' {
                self.buf.append("&quot;");
            } else {
                let piece = s.substring_char(i, i + 1);
                proof {
                    assert(piece@ =~= seq![s@[i as int]]);
                }
                self.buf.append(piece);
            }
            i = i + 1;
        }
    }

    /// Reports whether the output is still within the bound.
    fn check_fits(&self) -> (r: Result<(), WriteError>)
        ensures
            r is Ok <==> fits(self.cap(), self.out().len()),
    {
        match self.cap {
            Option::None => Ok(()),
            Option::Some(c) => {
                let l = self.buf.as_str().unicode_len();
                if l <= c {
                    Ok(())
                } else {
                    Err(WriteError)
                }
            },
        }
    }

    /// Begins a start tag: appends `<` and the tag name.
    pub fn write_element_start(&mut self, tag: &str) -> (r: Result<(), WriteError>)
        ensures
            final(self).out() == old(self).out() + "<"@ + tag@,
            final(self).cap() == old(self).cap(),
            r is Ok <==> fits(final(self).cap(), final(self).out().len()),
    {
        self.buf.append("<");
        self.buf.append(tag);
        self.check_fits()
    }

    /// Emits one attribute inside the still-open start tag; the value is
    /// escaped.
    pub fn write_attribute(&mut self, key: &str, value: &str) -> (r: Result<(), WriteError>)
        ensures
            final(self).out() == old(self).out() + " "@ + key@ + "=\""@ + escaped(value@)
                + "\""@,
            final(self).cap() == old(self).cap(),
            r is Ok <==> fits(final(self).cap(), final(self).out().len()),
    {
        self.buf.append(" ");
        self.buf.append(key);
        self.buf.append("=\"");
        self.push_escaped(value);
        self.buf.append("\"");
        self.check_fits()
    }

    /// Closes the current start tag as self-closing: appends `/>`.
    pub fn write_element_end_empty(&mut self) -> (r: Result<(), WriteError>)
        ensures
            final(self).out() == old(self).out() + "/>"@,
            final(self).cap() == old(self).cap(),
            r is Ok <==> fits(final(self).cap(), final(self).out().len()),
    {
        self.buf.append("/>");
        self.check_fits()
    }

    /// Closes the current start tag as open: appends `>`.
    pub fn write_element_end_open(&mut self) -> (r: Result<(), WriteError>)
        ensures
            final(self).out() == old(self).out() + ">"@,
            final(self).cap() == old(self).cap(),
            r is Ok <==> fits(final(self).cap(), final(self).out().len()),
    {
        self.buf.append(">");
        self.check_fits()
    }

    /// Emits escaped character data.
    pub fn write_text(&mut self, content: &str) -> (r: Result<(), WriteError>)
        ensures
            final(self).out() == old(self).out() + escaped(content@),
            final(self).cap() == old(self).cap(),
            r is Ok <==> fits(final(self).cap(), final(self).out().len()),
    {
        self.push_escaped(content);
        self.check_fits()
    }

    /// Emits a complete `<tag>content</tag>` element in one call, with the
    /// content escaped.
    pub fn write_flatten_text(&mut self, tag: &str, content: &str) -> (r: Result<
        (),
        WriteError,
    >)
        ensures
            final(self).out() == old(self).out() + "<"@ + tag@ + ">"@ + escaped(content@)
                + "</"@ + tag@ + ">"@,
            final(self).cap() == old(self).cap(),
            r is Ok <==> fits(final(self).cap(), final(self).out().len()),
    {
        self.buf.append("<");
        self.buf.append(tag);
        self.buf.append(">");
        self.push_escaped(content);
        self.buf.append("</");
        self.buf.append(tag);
        self.buf.append(">");
        self.check_fits()
    }

    /// Emits the matching end tag: appends `</tag>`.
    pub fn write_element_end_close(&mut self, tag: &str) -> (r: Result<(), WriteError>)
        ensures
            final(self).out() == old(self).out() + "</"@ + tag@ + ">"@,
            final(self).cap() == old(self).cap(),
            r is Ok <==> fits(final(self).cap(), final(self).out().len()),
    {
        self.buf.append("</");
        self.buf.append(tag);
        self.buf.append(">");
        self.check_fits()
    }
}

} // verus!
