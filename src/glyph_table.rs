//! The fixed mapping from text to glyph indices.

use vstd::prelude::*;
use vstd::string::StrSliceExecFns;

verus! {

/// The character that stands for one that the table cannot encode.
pub const FALLBACK_CHAR: u32 = 63;

/// A table of 256 glyph indices: a character whose code is below 256 is
/// drawn with the glyph at that position, any other with the glyph of `?`.
#[derive(Clone, Debug)]
pub struct GlyphTable {
    pub entries: Vec<u16>,
}

/// The glyph of one character under the table `t`.
pub open spec fn glyph_of(t: Seq<u16>, c: char) -> u16 {
    if (c as u32) < 256 {
        t[c as u32 as int]
    } else {
        t[FALLBACK_CHAR as int]
    }
}

/// The glyphs of a text, one per character, in order.
pub open spec fn encode_spec(t: Seq<u16>, s: Seq<char>) -> Seq<u16> {
    Seq::new(s.len(), |i: int| glyph_of(t, s[i]))
}

impl GlyphTable {
    pub open spec fn wf(&self) -> bool {
        self.entries@.len() == 256
    }

    /// A table from its 256 entries; `None` for any other number.
    pub fn new(entries: Vec<u16>) -> (r: Option<GlyphTable>)
        ensures
            r is Some <==> entries@.len() == 256,
            r matches Some(t) ==> t.entries@ == entries@,
    {
        if entries.len() == 256 {
            Some(GlyphTable { entries })
        } else {
            None
        }
    }

    /// The table that draws code `i` with glyph `i`: ASCII and the atlas
    /// agree on the first 128 codes.
    pub fn identity() -> (r: GlyphTable)
        ensures
            r.wf(),
            forall|i: int| 0 <= i < 256 ==> r.entries@[i] == i,
    {
        let mut entries: Vec<u16> = Vec::with_capacity(256);
        let mut i: u16 = 0;
        while i < 256
            invariant
                i <= 256,
                entries@.len() == i,
                forall|j: int| 0 <= j < i ==> entries@[j] == j,
            decreases 256 - i,
        {
            entries.push(i);
            i = i + 1;
        }
        GlyphTable { entries }
    }

    /// The glyph of one character.
    pub fn glyph(&self, c: char) -> (r: u16)
        requires
            self.wf(),
        ensures
            r == glyph_of(self.entries@, c),
    {
        let code = c as u32;
        if code < 256 {
            self.entries[code as usize]
        } else {
            self.entries[FALLBACK_CHAR as usize]
        }
    }

    /// The glyphs of `text`, one per character and in order; a character
    /// with no entry becomes the glyph of `?` and never stops the rest.
    pub fn encode(&self, text: &str) -> (r: Vec<u16>)
        requires
            self.wf(),
        ensures
            r@ == encode_spec(self.entries@, text@),
    {
        let n = text.unicode_len();
        let mut out: Vec<u16> = Vec::with_capacity(n);
        let mut i: usize = 0;
        while i < n
            invariant
                self.wf(),
                n == text@.len(),
                i <= n,
                out@ =~= encode_spec(self.entries@, text@.subrange(0, i as int)),
            decreases n - i,
        {
            let c = text.get_char(i);
            out.push(self.glyph(c));
            i = i + 1;
            assert(out@ =~= encode_spec(self.entries@, text@.subrange(0, i as int)));
        }
        assert(text@.subrange(0, n as int) =~= text@);
        out
    }
}

} // verus!
