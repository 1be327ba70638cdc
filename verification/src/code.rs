//! Link codes: what two players type so as to meet.

#[allow(unused_imports)]
use crate::net::is_plain;
#[allow(unused_imports)]
use crate::text::{ascii_lower, ascii_lowered, is_code_char};
use vstd::prelude::*;
use vstd::string::*;

verus! {

/// The longest link code.
pub const MAX_CODE_LEN: usize = 100;

/// A character of which a link code keeps something: a small letter, a
/// capital, a digit or a hyphen, all of ASCII.
pub open spec fn is_typeable(c: char) -> bool {
    is_code_char(ascii_lower(c))
}

/// What a link code keeps of what was typed: the characters that it may hold,
/// in lower case.
pub open spec fn kept(typed: Seq<char>) -> Seq<char> {
    ascii_lowered(typed.filter(|c: char| is_typeable(c)))
}

/// The link code that was typed, no longer than it may be.
pub open spec fn code_of(typed: Seq<char>) -> Seq<char> {
    if kept(typed).len() <= MAX_CODE_LEN {
        kept(typed)
    } else {
        kept(typed).take(MAX_CODE_LEN as int)
    }
}

proof fn lemma_kept_push(typed: Seq<char>, c: char)
    ensures
        kept(typed.push(c)) == (if is_typeable(c) {
            kept(typed).push(ascii_lower(c))
        } else {
            kept(typed)
        }),
{
    reveal(Seq::filter);
    assert(typed.push(c).drop_last() =~= typed);
    if is_typeable(c) {
        assert(kept(typed.push(c)) =~= kept(typed).push(ascii_lower(c)));
    }
}

/// The link code in what was typed: letters, digits and hyphens only, capped
/// at a hundred, and in lower case. Matchmaking tells capitals from small
/// letters, so this keeps a code that was read aloud from missing its lobby.
pub fn clean_code(typed: &str) -> (code: String)
    ensures
        code@ == code_of(typed@),
{
    let mut code: String = String::new();
    let mut len: usize = 0;
    proof {
        reveal(Seq::filter);
        assert(typed@.take(0).filter(|c: char| is_typeable(c)) =~= Seq::<char>::empty());
        assert(kept(typed@.take(0)) =~= Seq::<char>::empty());
    }
    for c in it: typed.chars()
        invariant
            it.seq() == typed@,
            len == code@.len() <= MAX_CODE_LEN,
            code@ == code_of(typed@.take(it.index() as int)),
    {
        let ghost before = typed@.take(it.index() as int);
        proof {
            lemma_kept_push(before, c);
            assert(typed@.take(it.index() + 1) =~= before.push(c));
        }
        if len < MAX_CODE_LEN {
            if 'A' <= c && c <= 'Z' {
                let lower: char = (c as u8 + 32) as char;
                assert(lower == ascii_lower(c));
                code.push(lower);
                len = len + 1;
            } else if 'a' <= c && c <= 'z' || '0' <= c && c <= '9' || c == '-' {
                code.push(c);
                len = len + 1;
            }
        }
        assert(code@ =~= code_of(before.push(c)));
    }
    assert(typed@.take(typed@.len() as int) =~= typed@);
    code
}

proof fn lemma_kept_chars(typed: Seq<char>)
    ensures
        forall|i: int| 0 <= i < kept(typed).len() ==> is_code_char(#[trigger] kept(typed)[i]),
{
    broadcast use vstd::seq_lib::group_filter_ensures;

    assert forall|i: int| 0 <= i < kept(typed).len() implies is_code_char(
        #[trigger] kept(typed)[i],
    ) by {
        let c = typed.filter(|c: char| is_typeable(c))[i];
        assert(is_typeable(c));
    }
}

proof fn lemma_clean_is_kept(code: Seq<char>)
    requires
        forall|i: int| 0 <= i < code.len() ==> is_code_char(#[trigger] code[i]),
    ensures
        kept(code) == code,
    decreases code.len(),
{
    if code.len() == 0 {
        reveal(Seq::filter);
        assert(kept(code) =~= code);
    } else {
        lemma_clean_is_kept(code.drop_last());
        lemma_kept_push(code.drop_last(), code.last());
        assert(code.drop_last().push(code.last()) =~= code);
        assert(is_code_char(code[code.len() - 1]));
    }
}

/// A link code holds small letters, digits and hyphens only, and no more than
/// it may.
pub proof fn law_codes_are_clean(typed: Seq<char>)
    ensures
        code_of(typed).len() <= MAX_CODE_LEN,
        forall|i: int| 0 <= i < code_of(typed).len() ==> is_code_char(#[trigger] code_of(typed)[i]),
{
    lemma_kept_chars(typed);
}

/// Typing a link code again changes nothing.
pub proof fn law_codes_stay(typed: Seq<char>)
    ensures
        code_of(code_of(typed)) == code_of(typed),
{
    law_codes_are_clean(typed);
    lemma_clean_is_kept(code_of(typed));
}

/// It does not matter whether a code is typed in capitals or in small letters.
pub proof fn law_case_does_not_matter(typed: Seq<char>, other: Seq<char>)
    requires
        ascii_lowered(typed) == ascii_lowered(other),
    ensures
        code_of(typed) == code_of(other),
{
    lemma_kept_ignores_case(typed, other);
}

proof fn lemma_kept_ignores_case(typed: Seq<char>, other: Seq<char>)
    requires
        ascii_lowered(typed) == ascii_lowered(other),
    ensures
        kept(typed) == kept(other),
    decreases typed.len(),
{
    assert(typed.len() == ascii_lowered(typed).len());
    assert(other.len() == ascii_lowered(other).len());
    if typed.len() == 0 {
        assert(typed =~= other);
    } else {
        let n = typed.len() - 1;
        assert(ascii_lowered(typed)[n] == ascii_lower(typed[n]));
        assert(ascii_lowered(other)[n] == ascii_lower(other[n]));
        assert(ascii_lowered(typed.drop_last()) =~= ascii_lowered(typed).drop_last());
        assert(ascii_lowered(other.drop_last()) =~= ascii_lowered(other).drop_last());
        lemma_kept_ignores_case(typed.drop_last(), other.drop_last());
        lemma_kept_push(typed.drop_last(), typed.last());
        lemma_kept_push(other.drop_last(), other.last());
        assert(typed.drop_last().push(typed.last()) =~= typed);
        assert(other.drop_last().push(other.last()) =~= other);
    }
}

/// A link code is plain, and no letter of it changes on the way to the
/// matchmaking server.
pub proof fn law_codes_are_plain(typed: Seq<char>)
    ensures
        is_plain(code_of(typed)),
        ascii_lowered(code_of(typed)) == code_of(typed),
{
    law_codes_are_clean(typed);
    assert forall|i: int| 0 <= i < code_of(typed).len() implies ascii_lower(
        #[trigger] code_of(typed)[i],
    ) == code_of(typed)[i] by {
        assert(is_code_char(code_of(typed)[i]));
    }
    assert(ascii_lowered(code_of(typed)) =~= code_of(typed));
}

/// What one more character does to a link code: a digit, a hyphen or a small
/// letter is appended, a capital as the small letter, as long as there is room
/// for it; anything else leaves the code as it is. Nothing typed is no code.
pub proof fn law_codes_grow_as_they_are_typed(typed: Seq<char>, c: char)
    ensures
        code_of(Seq::empty()) == Seq::<char>::empty(),
        ({
            let before = code_of(typed);
            let now = code_of(typed.push(c));
            let full = before.len() >= 100;
            &&& full ==> now == before
            &&& !full && ('a' <= c <= 'z' || '0' <= c <= '9' || c == '-') ==> now == before.push(c)
            &&& !full && 'A' <= c <= 'Z' ==> now == before.push((c as u32 + 32) as char)
            &&& !('a' <= c <= 'z' || '0' <= c <= '9' || c == '-' || 'A' <= c <= 'Z') ==> now
                == before
        }),
{
    reveal(Seq::filter);
    assert(kept(Seq::empty()) =~= Seq::<char>::empty());
    lemma_kept_push(typed, c);
    let k = kept(typed);
    if k.len() >= 100 {
        assert(kept(typed.push(c)).take(100) =~= k.take(100));
        assert(k.take(100) =~= code_of(typed));
    }
}

} // verus!
