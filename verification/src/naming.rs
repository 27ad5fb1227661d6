//! Output names: the pattern with the canvas index in it, and the three file
//! names made from it.

use vstd::prelude::*;
use vstd::string::StringExecFns;
use crate::text::decimal;
use crate::text::decimal_string;

verus! {

/// The text `s` with each `%d` in it replaced by `number`, from left to
/// right.
pub open spec fn with_number(s: Seq<char>, number: Seq<char>) -> Seq<char>
    decreases s.len(),
{
    if s.len() < 2 {
        s
    } else if s[0] == '%' && s[1] == 'd' {
        number + with_number(s.skip(2), number)
    } else {
        seq![s[0]] + with_number(s.skip(1), number)
    }
}

/// Calls `regex::Regex::new` on the placeholder expression `(%d)` and
/// `Regex::replace_all` with a `NoExpand` replacement. Trusted: every
/// occurrence of `%d`, found from left to right, is replaced by the
/// replacement as it stands, and the rest of the text is kept. The expression
/// is fixed by the precondition, so compiling it cannot fail.
#[verifier::external_body]
fn replace_all(pattern: &str, text: &str, replacement: &str) -> (r: String)
    requires
        pattern@ == "(%d)"@,
    ensures
        r@ == with_number(text@, replacement@),
{
    regex::Regex::new(pattern).unwrap().replace_all(text, regex::NoExpand(replacement)).into_owned()
}

/// The output name for canvas `n`: the pattern with each placeholder replaced
/// by `n` in decimal.
pub open spec fn formatted(pattern: Seq<char>, n: nat) -> Seq<char> {
    with_number(pattern, decimal(n))
}

/// Puts the number `n` in the place of the pattern's placeholder.
pub fn simple_format_u64(f: &str, n: u64) -> (s: String)
    ensures
        s@ == formatted(f@, n as nat),
{
    let number = decimal_string(n);
    replace_all("(%d)", f, number.as_str())
}

/// Puts the number `n` in the place of the pattern's placeholder.
pub fn simple_format_u32(f: &str, n: u32) -> (s: String)
    ensures
        s@ == formatted(f@, n as nat),
{
    simple_format_u64(f, n as u64)
}

/// A pattern without a percent sign is its own output name.
pub proof fn lemma_plain_pattern_is_kept(s: Seq<char>, number: Seq<char>)
    requires
        !s.contains('%'),
    ensures
        with_number(s, number) == s,
    decreases s.len(),
{
    if s.len() >= 2 {
        assert(s.contains(s[0]));
        assert forall|c: char| s.skip(1).contains(c) implies s.contains(c) by {
            let i = choose|i: int| 0 <= i < s.skip(1).len() && s.skip(1)[i] == c;
            assert(s[i + 1] == c);
        }
        lemma_plain_pattern_is_kept(s.skip(1), number);
        assert(seq![s[0]] + s.skip(1) =~= s);
    }
}

/// The three file names of one canvas.
pub struct OutputNames {
    pub png: String,
    pub atlas: String,
    pub map: String,
}

impl OutputNames {
    /// Whether the names are those of canvas `n` under `pattern`: the
    /// formatted pattern followed by `.png`, `.atlas` and `.map`.
    pub open spec fn is_for(&self, pattern: Seq<char>, n: nat) -> bool {
        &&& self.png@ == formatted(pattern, n) + ".png"@
        &&& self.atlas@ == formatted(pattern, n) + ".atlas"@
        &&& self.map@ == formatted(pattern, n) + ".map"@
    }

    /// Names the three files of canvas `n`.
    pub fn new(pattern: &str, n: u64) -> (names: OutputNames)
        ensures
            names.is_for(pattern@, n as nat),
    {
        let base = simple_format_u64(pattern, n);
        let png = base.clone().concat(".png");
        let atlas = base.clone().concat(".atlas");
        let map = base.concat(".map");
        OutputNames { png, atlas, map }
    }
}

} // verus!
