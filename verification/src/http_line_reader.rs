use vstd::prelude::*;
use crate::text::push_char;

verus! {

/// The character that a byte read from the wire stands for: its Latin-1 reading.
pub open spec fn latin1(b: u8) -> char {
    b as char
}

/// What a line read byte by byte holds so far, and whether it is complete.
pub struct LineAccumulator {
    pub line: String,
    pub done: bool,
}

impl LineAccumulator {
    /// Nothing read yet.
    pub fn new() -> (a: Self)
        ensures
            a.line@ == Seq::<char>::empty(),
            !a.done,
    {
        LineAccumulator { line: String::new(), done: false }
    }

    /// Takes the next byte: a `\n` completes the line, dropping one `\r` just before it;
    /// any other byte is added as its Latin-1 character.
    pub fn push_byte(&mut self, byte: u8)
        requires
            !old(self).done,
        ensures
            byte == 10 ==> final(self).done && final(self).line@ == (if old(self).line@.len() > 0
                && old(self).line@.last() == '\r' { old(self).line@.drop_last() } else { old(self).line@ }),
            byte != 10 ==> !final(self).done && final(self).line@ == old(self).line@.push(latin1(byte)),
    {
        if byte == 10 {
            self.done = true;
            let v: Vec<char> = crate::text::chars_of(self.line.as_str());
            let n = v.len();
            if n > 0 && v[n - 1] == '\r' {
                let s = crate::text::string_of_chars(&v, 0, n - 1);
                assert(s@ =~= old(self).line@.drop_last());
                self.line = s;
            }
        } else {
            let c = byte as char;
            push_char(&mut self.line, c);
        }
    }
}

} // verus!
