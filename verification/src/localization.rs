use vstd::prelude::*;

use crate::messages::msg_view;
use crate::state::Lang;
use crate::text::{chars_of, decimal, string_of, usize_to_string};

verus! {

/// The marks that the translation library puts around each value it fills
/// in (first strong isolate and pop directional isolate).
pub open spec fn is_isolation_mark(c: char) -> bool {
    c == '\u{2068}' || c == '\u{2069}'
}

/// `s` without its isolation marks.
pub open spec fn without_isolation_marks(s: Seq<char>) -> Seq<char> {
    s.filter(|c: char| !is_isolation_mark(c))
}

/// A translated text as it is shown: without the isolation marks around
/// the values filled in.
pub fn clean_translation(text: &str) -> (r: String)
    ensures
        r@ == without_isolation_marks(text@),
{
    let chars = chars_of(text);
    let mut out: Vec<char> = Vec::new();
    for i in 0..chars.len()
        invariant
            chars@ == text@,
            out@ == without_isolation_marks(text@.take(i as int)),
    {
        let c = chars[i];
        proof {
            reveal(Seq::filter);
            assert(text@.take(i + 1).drop_last() == text@.take(i as int));
            assert(text@.take(i + 1).last() == c);
        }
        if c != '\u{2068}' && c != '\u{2069}' {
            out.push(c);
        }
    }
    assert(text@.take(chars@.len() as int) == text@);
    string_of(&out)
}

/// The language tag of a language, as the game stores and asks for it.
pub fn locale_tag(lang: Lang) -> (t: &'static str)
    ensures
        t@ == match lang {
            Lang::French => "fr-FR"@,
            Lang::English => "en-US"@,
        },
{
    match lang {
        Lang::French => "fr-FR",
        Lang::English => "en-US",
    }
}

/// The message that announces the level `id`, with the level's number to
/// fill in.
pub fn current_level_message(id: u8) -> (m: (String, Option<Vec<(String, String)>>))
    ensures
        msg_view(m) == ("current_level"@, Some(seq![("current_level"@, decimal(id as nat))])),
{
    let key = string_of(&chars_of("current_level"));
    let mut args: Vec<(String, String)> = Vec::new();
    args.push((string_of(&chars_of("current_level")), usize_to_string(id as usize)));
    let m = (key, Some(args));
    assert(crate::enigma::pairs_view(args@) =~= seq![("current_level"@, decimal(id as nat))]);
    m
}

} // verus!
