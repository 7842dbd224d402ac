//! Persian half-space (ZWNJ / soft-hyphen) normalization.
//!
//! Two pure functions over Unicode text: a remover that maps every
//! zero-width non-joiner (U+200C) and soft hyphen (U+00AD) to an
//! ordinary space, and an inserter that re-places the joiner at the
//! boundaries of common Persian prefix and suffix words.

use std::borrow::Cow;
use vstd::prelude::*;
use vstd::string::StrSliceExecFns;
use vstd::string::StringExecFns;

verus! {

/// A character the remover rewrites: the zero-width non-joiner
/// (U+200C, the Persian "half space") or the soft hyphen (U+00AD).
pub open spec fn is_joiner(c: char) -> bool {
    c == '\u{200C}' || c == '\u{00AD}'
}

/// What the remover does to a single character.
pub open spec fn joiner_to_space(c: char) -> char {
    if is_joiner(c) {
        ' '
    } else {
        c
    }
}

/// The remover, characterwise: every joiner becomes a space, every
/// other character stays, and the length is unchanged.
pub open spec fn remove_spec(s: Seq<char>) -> Seq<char> {
    Seq::new(s.len(), |i: int| joiner_to_space(s[i]))
}

/// Replaces every half space (U+200C) and soft hyphen (U+00AD) in the
/// input with an ordinary space, leaving all other characters as they
/// are.
pub fn remove_half_space(input: &str) -> (r: String)
    ensures
        r@ == remove_spec(input@),
{
    let n = input.unicode_len();
    let mut r = String::new();
    let mut i: usize = 0;
    while i < n
        invariant
            i <= n,
            n == input@.len(),
            r@ == remove_spec(input@).take(i as int),
        decreases n - i,
    {
        let c = input.get_char(i);
        if c == '\u{200C}' || c == '\u{00AD}' {
            proof {
                reveal_strlit(" ");
            }
            r.append(" ");
        } else {
            let piece = input.substring_char(i, i + 1);
            r.append(piece);
        }
        proof {
            assert(r@ =~= remove_spec(input@).take(i + 1 as int));
        }
        i = i + 1;
    }
    proof {
        assert(remove_spec(input@).take(n as int) =~= remove_spec(input@));
    }
    r
}

/// Law: the remover is idempotent — removing twice is the same as
/// removing once.
pub proof fn lemma_remove_idempotent(s: Seq<char>)
    ensures
        remove_spec(remove_spec(s)) == remove_spec(s),
{
    assert(remove_spec(remove_spec(s)) =~= remove_spec(s));
}

/// Law: the remover never changes the character count.
pub proof fn lemma_remove_preserves_len(s: Seq<char>)
    ensures
        remove_spec(s).len() == s.len(),
{
}

/// Law: the remover's output holds no half space (U+200C) and no soft
/// hyphen (U+00AD).
pub proof fn lemma_remove_leaves_no_joiner(s: Seq<char>)
    ensures
        forall|i: int| 0 <= i < remove_spec(s).len() ==> !is_joiner(remove_spec(s)[i]),
{
}

/// Whether `pat` occurs in `s` starting at position `at`.
pub open spec fn matches_at_spec(s: Seq<char>, at: int, pat: Seq<char>) -> bool {
    &&& 0 <= at
    &&& at + pat.len() <= s.len()
    &&& s.subrange(at, at + pat.len()) == pat
}

fn matches_at(s: &str, at: usize, pat: &str) -> (r: bool)
    requires
        at <= s@.len(),
    ensures
        r == matches_at_spec(s@, at as int, pat@),
{
    let n = s.unicode_len();
    let p = pat.unicode_len();
    if p > n - at {
        return false;
    }
    let mut j: usize = 0;
    while j < p
        invariant
            j <= p,
            at + p <= n,
            n == s@.len(),
            p == pat@.len(),
            at <= s@.len(),
            forall|k: int| 0 <= k < j ==> s@[at + k] == pat@[k],
        decreases p - j,
    {
        if s.get_char(at + j) != pat.get_char(j) {
            proof {
                assert(s@.subrange(at as int, at + pat@.len())[j as int] != pat@[j as int]);
            }
            return false;
        }
        j = j + 1;
    }
    proof {
        assert(s@.subrange(at as int, at + pat@.len()) =~= pat@);
    }
    true
}

/// One global, left-to-right, non-overlapping literal substitution: at
/// each position, if `pat` starts there it is replaced by `rep` and the
/// scan continues after the match; otherwise the character is copied.
/// An empty pattern substitutes nothing.
pub open spec fn replace_spec(s: Seq<char>, pat: Seq<char>, rep: Seq<char>) -> Seq<char>
    decreases s.len(),
{
    if s.len() == 0 {
        Seq::empty()
    } else if pat.len() > 0 && matches_at_spec(s, 0, pat) {
        rep + replace_spec(s.skip(pat.len() as int), pat, rep)
    } else {
        seq![s[0]] + replace_spec(s.skip(1), pat, rep)
    }
}

fn replace(s: &str, pat: &str, rep: &str) -> (r: String)
    requires
        pat@.len() >= 1,
    ensures
        r@ == replace_spec(s@, pat@, rep@),
{
    let n = s.unicode_len();
    let p = pat.unicode_len();
    let mut r = String::new();
    let mut i: usize = 0;
    proof {
        assert(s@.skip(0) =~= s@);
        assert(r@ + replace_spec(s@, pat@, rep@) =~= replace_spec(s@, pat@, rep@));
    }
    while i < n
        invariant
            i <= n,
            n == s@.len(),
            p == pat@.len(),
            1 <= p,
            replace_spec(s@, pat@, rep@) == r@ + replace_spec(s@.skip(i as int), pat@, rep@),
        decreases n - i,
    {
        let ghost prev = r@;
        if matches_at(s, i, pat) {
            r.append(rep);
            proof {
                assert(s@.skip(i as int).len() > 0);
                assert(s@.skip(i as int).subrange(0, pat@.len() as int) =~= s@.subrange(
                    i as int,
                    i + pat@.len(),
                ));
                assert(matches_at_spec(s@.skip(i as int), 0, pat@));
                assert(s@.skip(i as int).skip(pat@.len() as int) =~= s@.skip(i + pat@.len()));
                assert(replace_spec(s@.skip(i as int), pat@, rep@) == rep@ + replace_spec(
                    s@.skip(i + pat@.len()),
                    pat@,
                    rep@,
                ));
                assert(prev + (rep@ + replace_spec(s@.skip(i + pat@.len()), pat@, rep@)) =~= r@
                    + replace_spec(s@.skip(i + pat@.len()), pat@, rep@));
            }
            i = i + p;
        } else {
            let piece = s.substring_char(i, i + 1);
            r.append(piece);
            proof {
                assert(s@.skip(i as int).len() > 0);
                if i + pat@.len() <= s@.len() {
                    assert(s@.skip(i as int).subrange(0, pat@.len() as int) =~= s@.subrange(
                        i as int,
                        i + pat@.len(),
                    ));
                }
                assert(!matches_at_spec(s@.skip(i as int), 0, pat@));
                assert(s@.skip(i as int).skip(1) =~= s@.skip(i + 1));
                assert(seq![s@.skip(i as int)[0]] =~= piece@);
                assert(replace_spec(s@.skip(i as int), pat@, rep@) == piece@ + replace_spec(
                    s@.skip(i + 1),
                    pat@,
                    rep@,
                ));
                assert(prev + (piece@ + replace_spec(s@.skip(i + 1), pat@, rep@)) =~= r@
                    + replace_spec(s@.skip(i + 1), pat@, rep@));
            }
            i = i + 1;
        }
    }
    proof {
        assert(s@.skip(n as int) =~= Seq::<char>::empty());
        assert(r@ + replace_spec(Seq::<char>::empty(), pat@, rep@) =~= r@);
    }
    r
}

/// Unicode whitespace, the characters with the White_Space property,
/// as `str::trim` strips them.
pub open spec fn is_blank(c: char) -> bool {
    ||| c == '\u{0009}'
    ||| c == '\u{000A}'
    ||| c == '\u{000B}'
    ||| c == '\u{000C}'
    ||| c == '\u{000D}'
    ||| c == '\u{0020}'
    ||| c == '\u{0085}'
    ||| c == '\u{00A0}'
    ||| c == '\u{1680}'
    ||| c == '\u{2000}'
    ||| c == '\u{2001}'
    ||| c == '\u{2002}'
    ||| c == '\u{2003}'
    ||| c == '\u{2004}'
    ||| c == '\u{2005}'
    ||| c == '\u{2006}'
    ||| c == '\u{2007}'
    ||| c == '\u{2008}'
    ||| c == '\u{2009}'
    ||| c == '\u{200A}'
    ||| c == '\u{2028}'
    ||| c == '\u{2029}'
    ||| c == '\u{202F}'
    ||| c == '\u{205F}'
    ||| c == '\u{3000}'
}

fn is_blank_char(c: char) -> (r: bool)
    ensures
        r == is_blank(c),
{
    c == '\u{0009}' || c == '\u{000A}' || c == '\u{000B}' || c == '\u{000C}' || c == '\u{000D}'
        || c == '\u{0020}' || c == '\u{0085}' || c == '\u{00A0}' || c == '\u{1680}' || c
        == '\u{2000}' || c == '\u{2001}' || c == '\u{2002}' || c == '\u{2003}' || c == '\u{2004}'
        || c == '\u{2005}' || c == '\u{2006}' || c == '\u{2007}' || c == '\u{2008}' || c
        == '\u{2009}' || c == '\u{200A}' || c == '\u{2028}' || c == '\u{2029}' || c == '\u{202F}'
        || c == '\u{205F}' || c == '\u{3000}'
}

/// The text with its leading whitespace dropped.
pub open spec fn trim_start_spec(s: Seq<char>) -> Seq<char>
    decreases s.len(),
{
    if s.len() > 0 && is_blank(s[0]) {
        trim_start_spec(s.skip(1))
    } else {
        s
    }
}

/// The text with its trailing whitespace dropped.
pub open spec fn trim_end_spec(s: Seq<char>) -> Seq<char>
    decreases s.len(),
{
    if s.len() > 0 && is_blank(s[s.len() - 1]) {
        trim_end_spec(s.take(s.len() - 1))
    } else {
        s
    }
}

/// The text with leading and trailing whitespace dropped.
pub open spec fn trim_spec(s: Seq<char>) -> Seq<char> {
    trim_end_spec(trim_start_spec(s))
}

proof fn lemma_trim_start_at(s: Seq<char>, a: int)
    requires
        0 <= a <= s.len(),
        forall|k: int| 0 <= k < a ==> is_blank(s[k]),
        a < s.len() ==> !is_blank(s[a]),
    ensures
        trim_start_spec(s) == s.skip(a),
    decreases a,
{
    if a == 0 {
        assert(s.skip(0) =~= s);
    } else {
        lemma_trim_start_at(s.skip(1), a - 1);
        assert(s.skip(1).skip(a - 1) =~= s.skip(a));
    }
}

proof fn lemma_trim_end_at(s: Seq<char>, b: int)
    requires
        0 <= b <= s.len(),
        forall|k: int| b <= k < s.len() ==> is_blank(s[k]),
        b > 0 ==> !is_blank(s[b - 1]),
    ensures
        trim_end_spec(s) == s.take(b),
    decreases s.len(),
{
    if b == s.len() {
        assert(s.take(s.len() as int) =~= s);
    } else {
        lemma_trim_end_at(s.take(s.len() - 1), b);
        assert(s.take(s.len() - 1).take(b) =~= s.take(b));
    }
}

fn scan_start(s: &str) -> (a: usize)
    ensures
        a <= s@.len(),
        forall|k: int| 0 <= k < a ==> is_blank(s@[k]),
        a < s@.len() ==> !is_blank(s@[a as int]),
{
    let n = s.unicode_len();
    let mut a: usize = 0;
    loop
        invariant
            a <= n,
            n == s@.len(),
            forall|k: int| 0 <= k < a ==> is_blank(s@[k]),
        decreases n - a,
    {
        if a == n {
            return a;
        }
        if !is_blank_char(s.get_char(a)) {
            return a;
        }
        a = a + 1;
    }
}

fn scan_end(s: &str) -> (b: usize)
    ensures
        b <= s@.len(),
        forall|k: int| b <= k < s@.len() ==> is_blank(s@[k]),
        b > 0 ==> !is_blank(s@[b - 1]),
{
    let n = s.unicode_len();
    let mut b: usize = n;
    loop
        invariant
            b <= n,
            n == s@.len(),
            forall|k: int| b <= k < n ==> is_blank(s@[k]),
        decreases b,
    {
        if b == 0 {
            return b;
        }
        if !is_blank_char(s.get_char(b - 1)) {
            return b;
        }
        b = b - 1;
    }
}

fn trim(s: &str) -> (r: &str)
    ensures
        r@ == trim_spec(s@),
{
    let n = s.unicode_len();
    let a = scan_start(s);
    proof {
        lemma_trim_start_at(s@, a as int);
    }
    let t = s.substring_char(a, n);
    proof {
        assert(t@ =~= s@.skip(a as int));
    }
    let b = scan_end(t);
    proof {
        lemma_trim_end_at(t@, b as int);
        assert(t@.take(b as int) =~= t@.subrange(0, b as int));
    }
    t.substring_char(0, b)
}

/// The position of the first space in the text, or its length when it
/// holds none.
pub open spec fn first_space_at(s: Seq<char>) -> int
    decreases s.len(),
{
    if s.len() == 0 {
        0
    } else if s[0] == ' ' {
        0
    } else {
        1 + first_space_at(s.skip(1))
    }
}

proof fn lemma_first_space_at(s: Seq<char>)
    ensures
        0 <= first_space_at(s) <= s.len(),
        first_space_at(s) < s.len() ==> s[first_space_at(s)] == ' ',
        forall|k: int| 0 <= k < first_space_at(s) ==> s[k] != ' ',
    decreases s.len(),
{
    if s.len() == 0 || s[0] == ' ' {
    } else {
        lemma_first_space_at(s.skip(1));
        assert forall|k: int| 0 <= k < first_space_at(s) implies s[k] != ' ' by {
            if k > 0 {
                assert(s.skip(1)[k - 1] == s[k]);
            }
        }
    }
}

fn find_first_space(s: &str) -> (j: usize)
    ensures
        j as int == first_space_at(s@),
{
    let n = s.unicode_len();
    let mut j: usize = 0;
    loop
        invariant
            j <= n,
            n == s@.len(),
            forall|k: int| 0 <= k < j ==> s@[k] != ' ',
        decreases n - j,
    {
        if j == n {
            proof {
                lemma_first_space_at(s@);
            }
            return j;
        }
        if s.get_char(j) == ' ' {
            proof {
                lemma_first_space_at(s@);
            }
            return j;
        }
        j = j + 1;
    }
}

/// The string-initial prefix correction: the text up to and including
/// its first space is replaced by the joiner-infixed prefix template;
/// a text without a space is left as it is.
pub open spec fn fix_prefix_spec(u: Seq<char>, rep: Seq<char>) -> Seq<char> {
    if first_space_at(u) < u.len() {
        rep + u.skip(first_space_at(u) + 1)
    } else {
        u
    }
}

fn fix_prefix(u: &str, rep: &str) -> (r: String)
    ensures
        r@ == fix_prefix_spec(u@, rep@),
{
    let n = u.unicode_len();
    let j = find_first_space(u);
    if j < n {
        let rest = u.substring_char(j + 1, n);
        let mut r = String::from_str(rep);
        r.append(rest);
        proof {
            assert(u@.subrange(j + 1, u@.len() as int) =~= u@.skip(j + 1));
        }
        r
    } else {
        String::from_str(u)
    }
}

/// The ordered substitution pass of the inserter: twenty-one literal
/// rules, each applied globally to the outcome of the rules before it.
/// The prefix words followed by a space swap that space for a joiner;
/// the possessive and verbal suffix words are wrapped in joiners, the
/// plural and comparative suffix words take a joiner on the preceding
/// side only.
pub open spec fn subst_spec(s: Seq<char>) -> Seq<char> {
    let r1 = replace_spec(s, " \u{645}\u{6cc} "@, " \u{645}\u{6cc}\u{200c}"@);
    let r2 = replace_spec(r1, " \u{646}\u{645}\u{6cc} "@, " \u{646}\u{645}\u{6cc}\u{200c}"@);
    let r3 = replace_spec(r2, " \u{628}\u{6cc} "@, " \u{628}\u{6cc}\u{200c}"@);
    let r4 = replace_spec(r3, " \u{627}\u{645} "@, "\u{200c}\u{627}\u{645}\u{200c}"@);
    let r5 = replace_spec(r4, " \u{627}\u{62a} "@, "\u{200c}\u{627}\u{62a}\u{200c}"@);
    let r6 = replace_spec(r5, " \u{627}\u{634} "@, "\u{200c}\u{627}\u{634}\u{200c}"@);
    let r7 = replace_spec(r6, " \u{627}\u{6cc} "@, "\u{200c}\u{627}\u{6cc}\u{200c}"@);
    let r8 = replace_spec(r7, " \u{627}\u{6cc}\u{62f} "@, "\u{200c}\u{627}\u{6cc}\u{62f}\u{200c}"@);
    let r9 = replace_spec(r8, " \u{627}\u{6cc}\u{645} "@, "\u{200c}\u{627}\u{6cc}\u{645}\u{200c}"@);
    let r10 = replace_spec(r9, " \u{627}\u{646}\u{62f} "@, "\u{200c}\u{627}\u{646}\u{62f}\u{200c}"@);
    let r11 = replace_spec(r10, " \u{647}\u{627}\u{6cc} "@, "\u{200c}\u{647}\u{627}\u{6cc} "@);
    let r12 = replace_spec(r11, " \u{647}\u{627} "@, "\u{200c}\u{647}\u{627} "@);
    let r13 = replace_spec(r12, " \u{62a}\u{631} "@, "\u{200c}\u{62a}\u{631} "@);
    let r14 = replace_spec(r13, " \u{62a}\u{631}\u{6cc} "@, "\u{200c}\u{62a}\u{631}\u{6cc} "@);
    let r15 = replace_spec(r14, " \u{647}\u{627}\u{6cc}\u{6cc} "@, "\u{200c}\u{647}\u{627}\u{6cc}\u{6cc}\u{200c}"@);
    let r16 = replace_spec(r15, " \u{647}\u{627}\u{6cc}\u{645} "@, "\u{200c}\u{647}\u{627}\u{6cc}\u{645}\u{200c}"@);
    let r17 = replace_spec(r16, " \u{647}\u{627}\u{6cc}\u{62a} "@, "\u{200c}\u{647}\u{627}\u{6cc}\u{62a}\u{200c}"@);
    let r18 = replace_spec(r17, " \u{647}\u{627}\u{6cc}\u{634} "@, "\u{200c}\u{647}\u{627}\u{6cc}\u{634}\u{200c}"@);
    let r19 = replace_spec(r18, " \u{647}\u{627}\u{6cc}\u{645}\u{627}\u{646} "@, "\u{200c}\u{647}\u{627}\u{6cc}\u{645}\u{627}\u{646}\u{200c}"@);
    let r20 = replace_spec(r19, " \u{647}\u{627}\u{6cc}\u{62a}\u{627}\u{646} "@, "\u{200c}\u{647}\u{627}\u{6cc}\u{62a}\u{627}\u{646}\u{200c}"@);
    let r21 = replace_spec(r20, " \u{647}\u{627}\u{6cc}\u{634}\u{627}\u{646} "@, "\u{200c}\u{647}\u{627}\u{6cc}\u{634}\u{627}\u{646}\u{200c}"@);
    r21
}

/// The inserter: trim, normalize existing joiners to spaces, run the
/// substitution pass, then correct a prefix word standing at the very
/// start of the text. The longest prefix word is checked first; a text
/// that begins with a prefix word but holds no space is left as the
/// substitution pass produced it.
pub open spec fn add_spec(s: Seq<char>) -> Seq<char> {
    let u = subst_spec(remove_spec(trim_spec(s)));
    if matches_at_spec(u, 0, "\u{646}\u{645}\u{6cc}"@) {
        fix_prefix_spec(u, "\u{646}\u{645}\u{6cc}\u{200c}"@)
    } else if matches_at_spec(u, 0, "\u{645}\u{6cc}"@) {
        fix_prefix_spec(u, "\u{645}\u{6cc}\u{200c}"@)
    } else if matches_at_spec(u, 0, "\u{628}\u{6cc}"@) {
        fix_prefix_spec(u, "\u{628}\u{6cc}\u{200c}"@)
    } else {
        u
    }
}

/// Inserts the Persian half space (U+200C): the input is trimmed, any
/// existing joiner is normalized to a space, the ordered substitution
/// rules for prefix and suffix words run in sequence, and a prefix word
/// at the start of the text is joined to the word after its first
/// space. Total over all inputs: a single word is returned as the
/// substitution pass left it.
pub fn add_half_space(input: &str) -> (r: String)
    ensures
        r@ == add_spec(input@),
{
    let trimmed = trim(input);
    let removed = remove_half_space(trimmed);
    proof {
        reveal_strlit(" \u{645}\u{6cc} ");
        reveal_strlit(" \u{646}\u{645}\u{6cc} ");
        reveal_strlit(" \u{628}\u{6cc} ");
        reveal_strlit(" \u{627}\u{645} ");
        reveal_strlit(" \u{627}\u{62a} ");
        reveal_strlit(" \u{627}\u{634} ");
        reveal_strlit(" \u{627}\u{6cc} ");
        reveal_strlit(" \u{627}\u{6cc}\u{62f} ");
        reveal_strlit(" \u{627}\u{6cc}\u{645} ");
        reveal_strlit(" \u{627}\u{646}\u{62f} ");
        reveal_strlit(" \u{647}\u{627}\u{6cc} ");
        reveal_strlit(" \u{647}\u{627} ");
        reveal_strlit(" \u{62a}\u{631} ");
        reveal_strlit(" \u{62a}\u{631}\u{6cc} ");
        reveal_strlit(" \u{647}\u{627}\u{6cc}\u{6cc} ");
        reveal_strlit(" \u{647}\u{627}\u{6cc}\u{645} ");
        reveal_strlit(" \u{647}\u{627}\u{6cc}\u{62a} ");
        reveal_strlit(" \u{647}\u{627}\u{6cc}\u{634} ");
        reveal_strlit(" \u{647}\u{627}\u{6cc}\u{645}\u{627}\u{646} ");
        reveal_strlit(" \u{647}\u{627}\u{6cc}\u{62a}\u{627}\u{646} ");
        reveal_strlit(" \u{647}\u{627}\u{6cc}\u{634}\u{627}\u{646} ");
    }
    let r1 = replace(removed.as_str(), " \u{645}\u{6cc} ", " \u{645}\u{6cc}\u{200c}");
    let r2 = replace(r1.as_str(), " \u{646}\u{645}\u{6cc} ", " \u{646}\u{645}\u{6cc}\u{200c}");
    let r3 = replace(r2.as_str(), " \u{628}\u{6cc} ", " \u{628}\u{6cc}\u{200c}");
    let r4 = replace(r3.as_str(), " \u{627}\u{645} ", "\u{200c}\u{627}\u{645}\u{200c}");
    let r5 = replace(r4.as_str(), " \u{627}\u{62a} ", "\u{200c}\u{627}\u{62a}\u{200c}");
    let r6 = replace(r5.as_str(), " \u{627}\u{634} ", "\u{200c}\u{627}\u{634}\u{200c}");
    let r7 = replace(r6.as_str(), " \u{627}\u{6cc} ", "\u{200c}\u{627}\u{6cc}\u{200c}");
    let r8 = replace(r7.as_str(), " \u{627}\u{6cc}\u{62f} ", "\u{200c}\u{627}\u{6cc}\u{62f}\u{200c}");
    let r9 = replace(r8.as_str(), " \u{627}\u{6cc}\u{645} ", "\u{200c}\u{627}\u{6cc}\u{645}\u{200c}");
    let r10 = replace(r9.as_str(), " \u{627}\u{646}\u{62f} ", "\u{200c}\u{627}\u{646}\u{62f}\u{200c}");
    let r11 = replace(r10.as_str(), " \u{647}\u{627}\u{6cc} ", "\u{200c}\u{647}\u{627}\u{6cc} ");
    let r12 = replace(r11.as_str(), " \u{647}\u{627} ", "\u{200c}\u{647}\u{627} ");
    let r13 = replace(r12.as_str(), " \u{62a}\u{631} ", "\u{200c}\u{62a}\u{631} ");
    let r14 = replace(r13.as_str(), " \u{62a}\u{631}\u{6cc} ", "\u{200c}\u{62a}\u{631}\u{6cc} ");
    let r15 = replace(r14.as_str(), " \u{647}\u{627}\u{6cc}\u{6cc} ", "\u{200c}\u{647}\u{627}\u{6cc}\u{6cc}\u{200c}");
    let r16 = replace(r15.as_str(), " \u{647}\u{627}\u{6cc}\u{645} ", "\u{200c}\u{647}\u{627}\u{6cc}\u{645}\u{200c}");
    let r17 = replace(r16.as_str(), " \u{647}\u{627}\u{6cc}\u{62a} ", "\u{200c}\u{647}\u{627}\u{6cc}\u{62a}\u{200c}");
    let r18 = replace(r17.as_str(), " \u{647}\u{627}\u{6cc}\u{634} ", "\u{200c}\u{647}\u{627}\u{6cc}\u{634}\u{200c}");
    let r19 = replace(r18.as_str(), " \u{647}\u{627}\u{6cc}\u{645}\u{627}\u{646} ", "\u{200c}\u{647}\u{627}\u{6cc}\u{645}\u{627}\u{646}\u{200c}");
    let r20 = replace(r19.as_str(), " \u{647}\u{627}\u{6cc}\u{62a}\u{627}\u{646} ", "\u{200c}\u{647}\u{627}\u{6cc}\u{62a}\u{627}\u{646}\u{200c}");
    let r21 = replace(r20.as_str(), " \u{647}\u{627}\u{6cc}\u{634}\u{627}\u{646} ", "\u{200c}\u{647}\u{627}\u{6cc}\u{634}\u{627}\u{646}\u{200c}");
    proof {
        assert(r21@ == subst_spec(removed@));
    }
    if matches_at(r21.as_str(), 0, "\u{646}\u{645}\u{6cc}") {
        fix_prefix(r21.as_str(), "\u{646}\u{645}\u{6cc}\u{200c}")
    } else if matches_at(r21.as_str(), 0, "\u{645}\u{6cc}") {
        fix_prefix(r21.as_str(), "\u{645}\u{6cc}\u{200c}")
    } else if matches_at(r21.as_str(), 0, "\u{628}\u{6cc}") {
        fix_prefix(r21.as_str(), "\u{628}\u{6cc}\u{200c}")
    } else {
        r21
    }
}

/// Law: removing joiners from the inserter's output leaves no half
/// space and no soft hyphen, though the outcome need not equal the
/// removal of the original text.
pub proof fn lemma_remove_after_add_leaves_no_joiner(s: Seq<char>)
    ensures
        forall|i: int|
            0 <= i < remove_spec(add_spec(s)).len() ==> !is_joiner(remove_spec(add_spec(s))[i]),
{
    lemma_remove_leaves_no_joiner(add_spec(s));
}

/// Method form of the remover for string-like receivers.
pub trait RemoveHalfSpace: View<V = Seq<char>> {
    fn remove_half_space(&self) -> (r: String)
        ensures
            r@ == remove_spec(self@),
    ;
}

impl RemoveHalfSpace for String {
    fn remove_half_space(&self) -> (r: String) {
        remove_half_space(self.as_str())
    }
}

impl RemoveHalfSpace for str {
    fn remove_half_space(&self) -> (r: String) {
        remove_half_space(self)
    }
}

impl RemoveHalfSpace for Cow<'_, str> {
    fn remove_half_space(&self) -> (r: String) {
        match self {
            Cow::Borrowed(b) => remove_half_space(b),
            Cow::Owned(o) => remove_half_space(o.as_str()),
        }
    }
}

/// Method form of the inserter for string-like receivers.
pub trait AddHalfSpace: View<V = Seq<char>> {
    fn add_half_space(&self) -> (r: String)
        ensures
            r@ == add_spec(self@),
    ;
}

impl AddHalfSpace for String {
    fn add_half_space(&self) -> (r: String) {
        add_half_space(self.as_str())
    }
}

impl AddHalfSpace for str {
    fn add_half_space(&self) -> (r: String) {
        add_half_space(self)
    }
}

impl AddHalfSpace for Cow<'_, str> {
    fn add_half_space(&self) -> (r: String) {
        match self {
            Cow::Borrowed(b) => add_half_space(b),
            Cow::Owned(o) => add_half_space(o.as_str()),
        }
    }
}

} // verus!
