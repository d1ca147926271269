//! Named sets of characters, for caching many glyphs at once.

use vstd::prelude::*;
use vstd::string::StrSliceExecFns;

verus! {

/// First code point of the hiragana set.
pub const HIRAGANA_FIRST: u32 = 0x3040;

/// Number of code points in the hiragana set.
pub const HIRAGANA_COUNT: u32 = 95;

/// `char::from_u32`: the character of a code point, which exists for every
/// code point up to `0x10FFFF` that is no surrogate.
pub assume_specification[ char::from_u32 ](i: u32) -> (r: Option<char>)
    ensures
        r is Some <==> (i < 0xD800 || 0xE000 <= i <= 0x10FFFF),
        r matches Some(c) ==> c as u32 == i,
;

/// The characters of `s` are the `count` code points from `first` on, in
/// rising order.
pub open spec fn is_code_range(s: Seq<char>, first: int, count: int) -> bool {
    &&& s.len() == count
    &&& forall|i: int| 0 <= i < count ==> (#[trigger] s[i]) as u32 == first + i
}

/// An ordered collection of characters. A character may occur more than
/// once.
#[derive(Clone, Debug)]
pub struct SaikoCharacterSet {
    characters: Vec<char>,
}

impl SaikoCharacterSet {
    /// The characters, in order.
    pub closed spec fn view(&self) -> Seq<char> {
        self.characters@
    }

    /// The set of the 128 ASCII characters, `U+0000` to `U+007F` in order.
    pub fn ascii() -> (set: SaikoCharacterSet)
        ensures
            is_code_range(set@, 0, 128),
    {
        let mut characters: Vec<char> = Vec::new();
        let mut code: u8 = 0;
        while code < 128
            invariant
                0 <= code <= 128,
                is_code_range(characters@, 0, code as int),
            decreases 128 - code,
        {
            characters.push(code as char);
            code = code + 1;
        }
        SaikoCharacterSet { characters }
    }

    /// The set of the hiragana block without its last code point, `U+3040`
    /// to `U+309E` in order.
    pub fn japanese_hiragana() -> (set: SaikoCharacterSet)
        ensures
            is_code_range(set@, HIRAGANA_FIRST as int, HIRAGANA_COUNT as int),
    {
        let mut characters: Vec<char> = Vec::new();
        let mut offset: u32 = 0;
        while offset < HIRAGANA_COUNT
            invariant
                0 <= offset <= HIRAGANA_COUNT,
                is_code_range(characters@, HIRAGANA_FIRST as int, offset as int),
            decreases HIRAGANA_COUNT - offset,
        {
            match char::from_u32(HIRAGANA_FIRST + offset) {
                Some(c) => {
                    characters.push(c);
                },
                None => {
                    assert(false);
                },
            }
            offset = offset + 1;
        }
        SaikoCharacterSet { characters }
    }

    /// The set of the given characters, in their order.
    pub fn from_vec(characters: Vec<char>) -> (set: SaikoCharacterSet)
        ensures
            set@ == characters@,
    {
        SaikoCharacterSet { characters }
    }

    /// The set of the characters of a slice, in their order.
    pub fn from_slice(characters: &[char]) -> (set: SaikoCharacterSet)
        ensures
            set@ == characters@,
    {
        let mut copy: Vec<char> = Vec::new();
        let mut index: usize = 0;
        while index < characters.len()
            invariant
                0 <= index <= characters@.len(),
                copy@ == characters@.take(index as int),
            decreases characters@.len() - index,
        {
            copy.push(characters[index]);
            assert(copy@ =~= characters@.take(index + 1));
            index = index + 1;
        }
        assert(characters@.take(index as int) =~= characters@);
        SaikoCharacterSet { characters: copy }
    }

    /// The set of the characters of a string, in their order.
    pub fn from_text(text: &str) -> (set: SaikoCharacterSet)
        ensures
            set@ == text@,
    {
        let mut characters: Vec<char> = Vec::new();
        let count = text.unicode_len();
        let mut index: usize = 0;
        while index < count
            invariant
                count == text@.len(),
                0 <= index <= count,
                characters@ == text@.take(index as int),
            decreases count - index,
        {
            characters.push(text.get_char(index));
            assert(characters@ =~= text@.take(index + 1));
            index = index + 1;
        }
        assert(text@.take(index as int) =~= text@);
        SaikoCharacterSet { characters }
    }

    /// Appends the characters of `other`.
    pub fn extend(&mut self, other: SaikoCharacterSet)
        ensures
            final(self)@ == old(self)@ + other@,
    {
        let mut rest = other.characters;
        self.characters.append(&mut rest);
    }

    /// Number of characters, each counted as often as it occurs.
    pub fn len(&self) -> (n: usize)
        ensures
            n == self@.len(),
    {
        self.characters.len()
    }

    /// The characters, in order.
    pub fn characters(&self) -> (r: &[char])
        ensures
            r@ == self@,
    {
        self.characters.as_slice()
    }

    /// The characters, in order, as a vector of their own.
    pub fn into_vec(self) -> (r: Vec<char>)
        ensures
            r@ == self@,
    {
        self.characters
    }
}

impl From<Vec<char>> for SaikoCharacterSet {
    /// The set of the given characters, in their order.
    fn from(characters: Vec<char>) -> (set: SaikoCharacterSet)
        ensures
            set@ == characters@,
    {
        SaikoCharacterSet { characters }
    }
}

impl vstd::std_specs::convert::FromSpecImpl<Vec<char>> for SaikoCharacterSet {
    open spec fn obeys_from_spec() -> bool {
        true
    }

    closed spec fn from_spec(characters: Vec<char>) -> SaikoCharacterSet {
        SaikoCharacterSet { characters }
    }
}

/// How a font is loaded: which characters are cached at once.
#[derive(Clone, Debug)]
pub struct SaikoSdfFontSettings {
    pub character_set: SaikoCharacterSet,
}

impl Default for SaikoSdfFontSettings {
    /// Settings that cache the ASCII set.
    fn default() -> (settings: SaikoSdfFontSettings)
        ensures
            is_code_range(settings.character_set@, 0, 128),
    {
        SaikoSdfFontSettings { character_set: SaikoCharacterSet::ascii() }
    }
}

impl Default for SaikoCharacterSet {
    /// The ASCII set.
    fn default() -> (set: SaikoCharacterSet)
        ensures
            is_code_range(set@, 0, 128),
    {
        SaikoCharacterSet::ascii()
    }
}

} // verus!
