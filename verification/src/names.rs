//! Output-name policy: sanitizing a directory name and building the
//! candidate `.zip` file names, numbered on collision.

use vstd::prelude::*;
use vstd::string::StrSliceExecFns;
use vstd::string::StringExecFns;
use crate::text::dec_str;
use crate::text::lemma_dec_str_injective;
use crate::text::lemma_dec_str_len;
use crate::text::push_char;
use crate::text::u64_to_string;

verus! {

/// A Unicode control character: the two blocks the `Cc` category holds.
pub open spec fn is_control_char(c: char) -> bool {
    (c as u32) < 32 || (127 <= (c as u32) && (c as u32) <= 159)
}

/// Characters that a portable archive file name must not hold: path
/// separators, the characters several platforms refuse in file names,
/// NUL and every control character.
pub open spec fn is_banned_char(c: char) -> bool {
    ||| c == '\\'
    ||| c == '/'
    ||| c == ':'
    ||| c == '*'
    ||| c == '?'
    ||| c == '"'
    ||| c == '<'
    ||| c == '>'
    ||| c == '|'
    ||| is_control_char(c)
}

pub open spec fn sanitize_char(c: char) -> char {
    if is_banned_char(c) {
        '_'
    } else {
        c
    }
}

/// `s` with every banned character replaced by `_`.
pub open spec fn sanitize_spec(s: Seq<char>) -> Seq<char> {
    s.map_values(|c: char| sanitize_char(c))
}

fn banned_char(c: char) -> (b: bool)
    ensures
        b == is_banned_char(c),
{
    c == '\\' || c == '/' || c == ':' || c == '*' || c == '?' || c == '"' || c == '<' || c == '>'
        || c == '|' || (c as u32) < 32 || (127 <= (c as u32) && (c as u32) <= 159)
}

/// Replace every character a portable file name must not hold by `_`.
/// The length and all other characters are kept.
pub fn sanitize_filename(name: &str) -> (r: String)
    ensures
        r@ == sanitize_spec(name@),
{
    let n = name.unicode_len();
    let mut out = String::new();
    let mut i: usize = 0;
    while i < n
        invariant
            n == name@.len(),
            i <= n,
            out@ =~= sanitize_spec(name@.take(i as int)),
        decreases n - i,
    {
        let c = name.get_char(i);
        if banned_char(c) {
            push_char(&mut out, '_');
        } else {
            push_char(&mut out, c);
        }
        i = i + 1;
        assert(out@ =~= sanitize_spec(name@.take(i as int)));
    }
    assert(name@.take(n as int) =~= name@);
    out
}

pub open spec fn zip_suffix() -> Seq<char> {
    seq!['.', 'z', 'i', 'p']
}

/// The file name the planner proposes for a base name and an attempt
/// counter: `{base}.zip` for the first attempt, `{base} (k).zip` after
/// `k` collisions.
pub open spec fn planned_file_name(base: Seq<char>, k: nat) -> Seq<char> {
    if k == 0 {
        base + zip_suffix()
    } else {
        base + seq![' ', '('] + dec_str(k) + seq![')'] + zip_suffix()
    }
}

/// Build the planner's candidate file name for attempt `k`.
pub fn candidate_file_name(base: &str, k: u64) -> (r: String)
    ensures
        r@ == planned_file_name(base@, k as nat),
{
    proof {
        reveal_strlit(".zip");
        reveal_strlit(" (");
        reveal_strlit(").zip");
    }
    if k == 0 {
        let r = String::from_str(base).concat(".zip");
        assert(r@ =~= planned_file_name(base@, k as nat));
        r
    } else {
        let num = u64_to_string(k);
        let mut r = String::from_str(base).concat(" (");
        r.append(num.as_str());
        r.append(").zip");
        assert(r@ =~= planned_file_name(base@, k as nat));
        r
    }
}

/// Distinct attempt counters give distinct candidate names for the same
/// base, so the planner's numbered candidates never repeat and never
/// collide with the primary candidate.
pub proof fn lemma_planned_names_injective(base: Seq<char>, k1: nat, k2: nat)
    ensures
        planned_file_name(base, k1) == planned_file_name(base, k2) ==> k1 == k2,
{
    lemma_dec_str_len(k1);
    lemma_dec_str_len(k2);
    if planned_file_name(base, k1) == planned_file_name(base, k2) {
        if k1 == 0 && k2 != 0 {
            assert(planned_file_name(base, k1).len() < planned_file_name(base, k2).len());
        } else if k1 != 0 && k2 == 0 {
            assert(planned_file_name(base, k1).len() > planned_file_name(base, k2).len());
        } else if k1 != 0 && k2 != 0 {
            let n1 = dec_str(k1);
            let n2 = dec_str(k2);
            assert(planned_file_name(base, k1).len() == base.len() + 2 + n1.len() + 5);
            assert(planned_file_name(base, k2).len() == base.len() + 2 + n2.len() + 5);
            assert(n1.len() == n2.len());
            assert forall|i: int| 0 <= i < n1.len() implies n1[i] == n2[i] by {
                let p = base.len() + 2 + i;
                assert(planned_file_name(base, k1)[p] == n1[i]);
                assert(planned_file_name(base, k2)[p] == n2[i]);
            }
            assert(n1 =~= n2);
            lemma_dec_str_injective(k1, k2);
        }
    }
}

} // verus!
