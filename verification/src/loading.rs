//! The text of the loading indicator.

use vstd::prelude::*;

verus! {

/// The label a loading indicator shows: the Zterm glyph, a space and the text.
pub fn loading_label(text: &str) -> (r: String)
    ensures
        r@ == seq!['\u{E500}', ' '] + text@,
{
    let glyph = "\u{E500} ";
    proof {
        reveal_strlit("\u{E500} ");
    }
    assert(glyph@ =~= seq!['\u{E500}', ' ']);
    String::from_str(glyph).concat(text)
}

} // verus!
