//! Choosing the conversion between the Chinese scripts from a language
//! code.

use crate::text::chars_of;
use vstd::prelude::*;

verus! {

/// What `str::to_lowercase` makes of a text.
pub uninterp spec fn lowercased(s: Seq<char>) -> Seq<char>;

/// `str::to_lowercase` returns the text in lower case, which depends on the
/// text alone.
pub assume_specification[ str::to_lowercase ](s: &str) -> (lower: String)
    ensures
        lower@ == lowercased(s@),
;

/// A conversion between Chinese scripts.
#[derive(Clone, Copy, Debug, PartialEq, Eq, Structural)]
pub enum ZhConversion {
    /// Simplified to traditional, as written in Taiwan.
    S2TW,
    /// Simplified to traditional, as written in Hong Kong.
    S2HK,
    /// Traditional to simplified.
    T2S,
}

/// The conversion for a language code in lower case, or why there is none.
/// The bare code `zh` leaves the script open; a code that does not begin
/// with `zh` is not Chinese. `zh_tw` and `zh-tw` ask for the script of
/// Taiwan, `zh_hk` and `zh-hk` for that of Hong Kong, every other code for
/// simplified script.
pub open spec fn conversion_for(code: Seq<char>) -> Result<ZhConversion, Seq<char>> {
    if code == seq!['z', 'h'] {
        Err("auto detection chinese language code"@)
    } else if !(code.len() >= 2 && code[0] == 'z' && code[1] == 'h') {
        Err("is not chinese language code"@)
    } else if code == seq!['z', 'h', '_', 't', 'w'] || code == seq!['z', 'h', '-', 't', 'w'] {
        Ok(ZhConversion::S2TW)
    } else if code == seq!['z', 'h', '_', 'h', 'k'] || code == seq!['z', 'h', '-', 'h', 'k'] {
        Ok(ZhConversion::S2HK)
    } else {
        Ok(ZhConversion::T2S)
    }
}

/// `got` says what `wanted` says.
pub open spec fn agrees(
    got: Result<ZHTransformer, &'static str>,
    wanted: Result<ZhConversion, Seq<char>>,
) -> bool {
    match wanted {
        Ok(conversion) => got matches Ok(t) && t@ == conversion,
        Err(words) => got matches Err(m) && m@ == words,
    }
}

/// The conversion that a language code asks for.
pub struct ZHTransformer {
    convert: ZhConversion,
}

impl View for ZHTransformer {
    type V = ZhConversion;

    closed spec fn view(&self) -> ZhConversion {
        self.convert
    }
}

/// Whether `code` is `zh`, a separator, and the two letters given.
fn is_region(code: &Vec<char>, first: char, second: char) -> (is: bool)
    requires
        code@.len() >= 2,
        code@[0] == 'z',
        code@[1] == 'h',
    ensures
        is == (code@ == seq!['z', 'h', '_', first, second] || code@ == seq![
            'z',
            'h',
            '-',
            first,
            second,
        ]),
{
    if code.len() != 5 {
        return false;
    }
    let is = (code[2] == '_' || code[2] == '-') && code[3] == first && code[4] == second;
    proof {
        if is {
            assert(code@ =~= seq!['z', 'h', code@[2], first, second]);
        } else {
            assert(seq!['z', 'h', '_', first, second][2] == '_');
            assert(seq!['z', 'h', '-', first, second][2] == '-');
            assert(seq!['z', 'h', '_', first, second][3] == first);
            assert(seq!['z', 'h', '-', first, second][3] == first);
            assert(seq!['z', 'h', '_', first, second][4] == second);
            assert(seq!['z', 'h', '-', first, second][4] == second);
        }
    }
    is
}

impl ZHTransformer {
    /// The conversion for a language code that is in lower case already.
    pub fn from_lowercase(code: &str) -> (transformer: Result<ZHTransformer, &'static str>)
        ensures
            agrees(transformer, conversion_for(code@)),
    {
        let chars = chars_of(code);
        if !(chars.len() >= 2 && chars[0] == 'z' && chars[1] == 'h') {
            assert(seq!['z', 'h'][0] == 'z' && seq!['z', 'h'][1] == 'h');
            return Err("is not chinese language code");
        }
        if chars.len() == 2 {
            assert(chars@ =~= seq!['z', 'h']);
            return Err("auto detection chinese language code");
        }
        let convert = if is_region(&chars, 't', 'w') {
            ZhConversion::S2TW
        } else if is_region(&chars, 'h', 'k') {
            ZhConversion::S2HK
        } else {
            ZhConversion::T2S
        };
        Ok(ZHTransformer { convert })
    }

    /// The conversion for a language code, in whatever case it is written.
    pub fn from(s: &str) -> (transformer: Result<ZHTransformer, &'static str>)
        ensures
            agrees(transformer, conversion_for(lowercased(s@))),
    {
        let lower = s.to_lowercase();
        ZHTransformer::from_lowercase(lower.as_str())
    }

    /// The conversion chosen.
    pub fn conversion(&self) -> (conversion: ZhConversion)
        ensures
            conversion == self@,
    {
        self.convert
    }
}

} // verus!
