//! Character-level text operations over the `Seq<char>` view of strings.

use vstd::prelude::*;
use vstd::string::*;

verus! {

/// The Unicode `White_Space` property, which `char::is_whitespace` and
/// `str::trim` go by.
pub open spec fn is_ws(c: char) -> bool {
    let u = c as u32;
    ||| (0x9 <= u && u <= 0xD)
    ||| u == 0x20
    ||| u == 0x85
    ||| u == 0xA0
    ||| u == 0x1680
    ||| (0x2000 <= u && u <= 0x200A)
    ||| u == 0x2028
    ||| u == 0x2029
    ||| u == 0x202F
    ||| u == 0x205F
    ||| u == 0x3000
}

/// The text of an optional string.
pub open spec fn opt_view(o: Option<String>) -> Option<Seq<char>> {
    match o {
        Some(s) => Some(s@),
        None => None,
    }
}

/// A copy of an optional string.
pub fn copy_opt(o: &Option<String>) -> (r: Option<String>)
    ensures
        opt_view(r) == opt_view(*o),
{
    match o {
        Some(s) => Some(owned(s.as_str())),
        None => None,
    }
}

/// `s` with its leading white space removed.
pub open spec fn trim_start(s: Seq<char>) -> Seq<char>
    decreases s.len(),
{
    if s.len() > 0 && is_ws(s[0]) {
        trim_start(s.drop_first())
    } else {
        s
    }
}

/// `s` with its trailing white space removed.
pub open spec fn trim_end(s: Seq<char>) -> Seq<char>
    decreases s.len(),
{
    if s.len() > 0 && is_ws(s.last()) {
        trim_end(s.drop_last())
    } else {
        s
    }
}

/// `s` with white space removed from both ends, as `str::trim` does.
pub open spec fn trim(s: Seq<char>) -> Seq<char> {
    trim_end(trim_start(s))
}

/// ASCII upper-case letters mapped to lower case; every other character kept.
pub open spec fn lower_char(c: char) -> char {
    if 'A' <= c && c <= 'Z' {
        ((c as u32) + 32) as char
    } else {
        c
    }
}

/// `s` with every ASCII upper-case letter mapped to lower case.
pub open spec fn lower(s: Seq<char>) -> Seq<char> {
    s.map_values(|c: char| lower_char(c))
}

/// `p` is a prefix of `s`.
pub open spec fn has_prefix(s: Seq<char>, p: Seq<char>) -> bool {
    p.len() <= s.len() && s.subrange(0, p.len() as int) == p
}

/// `p` is a suffix of `s`.
pub open spec fn has_suffix(s: Seq<char>, p: Seq<char>) -> bool {
    p.len() <= s.len() && s.subrange(s.len() - p.len(), s.len() as int) == p
}

/// `needle` occurs in `s` as a contiguous run, starting at `i`.
pub open spec fn occurs_at(s: Seq<char>, needle: Seq<char>, i: int) -> bool {
    0 <= i && i + needle.len() <= s.len() && s.subrange(i, i + needle.len()) == needle
}

/// `needle` occurs somewhere in `s` as a contiguous run.
pub open spec fn contains_run(s: Seq<char>, needle: Seq<char>) -> bool {
    exists|i: int| occurs_at(s, needle, i)
}

/// Whether `c` has the Unicode `White_Space` property.
pub fn char_is_ws(c: char) -> (b: bool)
    ensures
        b == is_ws(c),
{
    let u = c as u32;
    (0x9 <= u && u <= 0xD) || u == 0x20 || u == 0x85 || u == 0xA0 || u == 0x1680 || (0x2000 <= u
        && u <= 0x200A) || u == 0x2028 || u == 0x2029 || u == 0x202F || u == 0x205F || u == 0x3000
}

/// Maps an ASCII upper-case letter to lower case and keeps any other character.
pub fn char_to_lower(c: char) -> (r: char)
    ensures
        r == lower_char(c),
{
    if 'A' <= c && c <= 'Z' {
        let b: u8 = (c as u8) + 32;
        b as char
    } else {
        c
    }
}

/// Appends one character to the end of a string.
#[verifier::external_body]
pub fn push_char(s: &mut String, c: char)
    ensures
        final(s)@ == old(s)@.push(c),
{
    s.push(c);
}

/// The lower-case form of a text under Unicode's case mapping, as
/// `str::to_lowercase` gives it.
pub uninterp spec fn unicode_lower(s: Seq<char>) -> Seq<char>;

/// Lower-cases a text through `str::to_lowercase`. Claimed: the result is
/// the text named `unicode_lower` for it (the mapping depends on the text
/// alone, through std's Unicode tables).
#[verifier::external_body]
pub fn to_lowercase(s: &str) -> (r: String)
    ensures
        r@ == unicode_lower(s@),
{
    s.to_lowercase()
}

/// A new string with the characters of `s`.
pub fn owned(s: &str) -> (r: String)
    ensures
        r@ == s@,
{
    s.to_owned()
}

proof fn lemma_trim_start_skip(s: Seq<char>, i: int)
    requires
        0 <= i <= s.len(),
        forall|k: int| 0 <= k < i ==> is_ws(#[trigger] s[k]),
    ensures
        trim_start(s) == trim_start(s.subrange(i, s.len() as int)),
    decreases i,
{
    if i > 0 {
        assert(s.drop_first() =~= s.subrange(1, s.len() as int));
        lemma_trim_start_skip(s.drop_first(), i - 1);
        assert(s.drop_first().subrange(i - 1, s.drop_first().len() as int) =~= s.subrange(
            i,
            s.len() as int,
        ));
    } else {
        assert(s.subrange(0, s.len() as int) =~= s);
    }
}

proof fn lemma_trim_end_skip(s: Seq<char>, j: int)
    requires
        0 <= j <= s.len(),
        forall|k: int| j <= k < s.len() ==> is_ws(#[trigger] s[k]),
    ensures
        trim_end(s) == trim_end(s.subrange(0, j)),
    decreases s.len() - j,
{
    if j < s.len() {
        assert(s.drop_last() =~= s.subrange(0, s.len() - 1));
        lemma_trim_end_skip(s.drop_last(), j);
        assert(s.drop_last().subrange(0, j) =~= s.subrange(0, j));
    } else {
        assert(s.subrange(0, s.len() as int) =~= s);
    }
}

/// `s` with white space removed from both ends.
pub fn trim_str(s: &str) -> (r: String)
    ensures
        r@ == trim(s@),
{
    let n = s.unicode_len();
    let mut i: usize = 0;
    while i < n && char_is_ws(s.get_char(i))
        invariant
            n == s@.len(),
            i <= n,
            forall|k: int| 0 <= k < i ==> is_ws(#[trigger] s@[k]),
        decreases n - i,
    {
        i = i + 1;
    }
    let mut j: usize = n;
    while j > i && char_is_ws(s.get_char(j - 1))
        invariant
            n == s@.len(),
            i <= j <= n,
            forall|k: int| j <= k < n ==> is_ws(#[trigger] s@[k]),
        decreases j,
    {
        j = j - 1;
    }
    proof {
        lemma_trim_start_skip(s@, i as int);
        let t = s@.subrange(i as int, n as int);
        if i < n {
            assert(!is_ws(t[0]));
        }
        assert(trim_start(t) == t);
        lemma_trim_end_skip(t, j - i);
        let u = t.subrange(0, j - i);
        assert(u =~= s@.subrange(i as int, j as int));
        if j > i {
            assert(!is_ws(u.last()));
        }
        assert(trim_end(u) == u);
    }
    owned(s.substring_char(i, j))
}


/// `s` with every ASCII upper-case letter mapped to lower case.
pub fn lower_str(s: &str) -> (r: String)
    ensures
        r@ == lower(s@),
{
    let n = s.unicode_len();
    let mut r = String::new();
    let mut i: usize = 0;
    while i < n
        invariant
            n == s@.len(),
            i <= n,
            r@ == lower(s@.subrange(0, i as int)),
        decreases n - i,
    {
        let c = s.get_char(i);
        push_char(&mut r, char_to_lower(c));
        proof {
            assert(lower(s@.subrange(0, i + 1)) =~= lower(s@.subrange(0, i as int)).push(
                lower_char(c),
            ));
        }
        i = i + 1;
    }
    proof {
        assert(s@.subrange(0, n as int) =~= s@);
    }
    r
}

/// Whether the characters of `a` and `b` are the same.
pub fn str_eq(a: &str, b: &str) -> (r: bool)
    ensures
        r == (a@ == b@),
{
    let n = a.unicode_len();
    if n != b.unicode_len() {
        return false;
    }
    let mut i: usize = 0;
    while i < n
        invariant
            n == a@.len(),
            n == b@.len(),
            i <= n,
            forall|k: int| 0 <= k < i ==> a@[k] == b@[k],
        decreases n - i,
    {
        if a.get_char(i) != b.get_char(i) {
            return false;
        }
        i = i + 1;
    }
    proof {
        assert(a@ =~= b@);
    }
    true
}

/// Whether `needle` occurs in `s` starting at character index `at`.
pub fn occurs_at_exec(s: &str, needle: &str, at: usize) -> (r: bool)
    requires
        at <= s@.len(),
    ensures
        r == occurs_at(s@, needle@, at as int),
{
    let n = s.unicode_len();
    let m = needle.unicode_len();
    if m > n - at {
        return false;
    }
    let mut i: usize = 0;
    while i < m
        invariant
            n == s@.len(),
            m == needle@.len(),
            at + m <= n,
            i <= m,
            forall|k: int| 0 <= k < i ==> s@[at + k] == needle@[k],
        decreases m - i,
    {
        if s.get_char(at + i) != needle.get_char(i) {
            proof {
                assert(s@.subrange(at as int, at + m)[i as int] != needle@[i as int]);
            }
            return false;
        }
        i = i + 1;
    }
    proof {
        assert(s@.subrange(at as int, at + m) =~= needle@);
    }
    true
}

/// Whether `s` starts with `p`.
pub fn starts_with(s: &str, p: &str) -> (r: bool)
    ensures
        r == has_prefix(s@, p@),
{
    occurs_at_exec(s, p, 0)
}

/// Whether `s` ends with `p`.
pub fn ends_with(s: &str, p: &str) -> (r: bool)
    ensures
        r == has_suffix(s@, p@),
{
    let n = s.unicode_len();
    let m = p.unicode_len();
    if m > n {
        return false;
    }
    occurs_at_exec(s, p, n - m)
}

/// Whether `needle` occurs somewhere in `s`.
pub fn contains_str(s: &str, needle: &str) -> (r: bool)
    ensures
        r == contains_run(s@, needle@),
{
    let n = s.unicode_len();
    let m = needle.unicode_len();
    if m > n {
        proof {
            assert forall|i: int| !occurs_at(s@, needle@, i) by {}
        }
        return false;
    }
    let mut i: usize = 0;
    loop
        invariant
            n == s@.len(),
            m == needle@.len(),
            m <= n,
            i <= n - m,
            forall|k: int| 0 <= k < i ==> !occurs_at(s@, needle@, k),
        decreases n - m - i,
    {
        if occurs_at_exec(s, needle, i) {
            return true;
        }
        if i == n - m {
            proof {
                assert forall|k: int| !occurs_at(s@, needle@, k) by {
                    if 0 <= k && k + m <= n {
                        assert(k <= i);
                    }
                }
            }
            return false;
        }
        i = i + 1;
    }
}

/// `s` without its prefix `p`, where `s` starts with `p`.
pub fn strip_prefix(s: &str, p: &str) -> (r: Option<String>)
    ensures
        r is Some <==> has_prefix(s@, p@),
        r matches Some(rest) ==> rest@ == s@.subrange(p@.len() as int, s@.len() as int),
{
    if starts_with(s, p) {
        let n = s.unicode_len();
        let m = p.unicode_len();
        Some(owned(s.substring_char(m, n)))
    } else {
        None
    }
}

/// The string made of `a` followed by `b`.
pub fn cat(a: &str, b: &str) -> (r: String)
    ensures
        r@ == a@ + b@,
{
    let mut r = owned(a);
    r.append(b);
    r
}

/// The string made of `a`, `b` and `c` in that order.
pub fn cat3(a: &str, b: &str, c: &str) -> (r: String)
    ensures
        r@ == a@ + b@ + c@,
{
    let mut r = owned(a);
    r.append(b);
    r.append(c);
    r
}


/// The parts joined with `sep` between each two of them.
pub open spec fn join_spec(parts: Seq<Seq<char>>, sep: Seq<char>) -> Seq<char>
    decreases parts.len(),
{
    if parts.len() == 0 {
        Seq::empty()
    } else if parts.len() == 1 {
        parts[0]
    } else {
        join_spec(parts.drop_last(), sep) + sep + parts.last()
    }
}

/// The parts joined with `sep` between each two of them.
pub fn join(parts: &Vec<String>, sep: &str) -> (r: String)
    ensures
        r@ == join_spec(parts.deep_view(), sep@),
{
    let mut r = String::new();
    let mut i: usize = 0;
    while i < parts.len()
        invariant
            i <= parts@.len(),
            r@ == join_spec(parts.deep_view().subrange(0, i as int), sep@),
        decreases parts@.len() - i,
    {
        let ghost pv = parts.deep_view();
        proof {
            assert(pv.subrange(0, i + 1).drop_last() =~= pv.subrange(0, i as int));
        }
        if i > 0 {
            r.append(sep);
        } else {
            assert(r@ =~= Seq::<char>::empty());
        }
        r.append(parts[i].as_str());
        proof {
            if i == 0 {
                assert(r@ =~= pv[0]);
            }
        }
        i = i + 1;
    }
    proof {
        assert(parts.deep_view().subrange(0, parts@.len() as int) =~= parts.deep_view());
    }
    r
}


/// `a` orders before `b`, comparing characters from the start and a proper
/// prefix before the longer text (the order of `str`).
pub open spec fn seq_lt(a: Seq<char>, b: Seq<char>) -> bool
    decreases a.len(),
{
    if a.len() == 0 {
        b.len() > 0
    } else if b.len() == 0 {
        false
    } else if a[0] != b[0] {
        a[0] < b[0]
    } else {
        seq_lt(a.drop_first(), b.drop_first())
    }
}

proof fn lemma_seq_lt_skip(a: Seq<char>, b: Seq<char>, i: int)
    requires
        0 <= i <= a.len(),
        i <= b.len(),
        forall|k: int| 0 <= k < i ==> a[k] == b[k],
    ensures
        seq_lt(a, b) == seq_lt(a.subrange(i, a.len() as int), b.subrange(i, b.len() as int)),
    decreases i,
{
    if i > 0 {
        lemma_seq_lt_skip(a.drop_first(), b.drop_first(), i - 1);
        assert(a.drop_first().subrange(i - 1, a.drop_first().len() as int) =~= a.subrange(
            i,
            a.len() as int,
        ));
        assert(b.drop_first().subrange(i - 1, b.drop_first().len() as int) =~= b.subrange(
            i,
            b.len() as int,
        ));
    } else {
        assert(a.subrange(0, a.len() as int) =~= a);
        assert(b.subrange(0, b.len() as int) =~= b);
    }
}

/// No text orders before itself.
pub proof fn lemma_seq_lt_irreflexive(a: Seq<char>)
    ensures
        !seq_lt(a, a),
    decreases a.len(),
{
    if a.len() > 0 {
        lemma_seq_lt_irreflexive(a.drop_first());
    }
}

/// The order of texts is transitive.
pub proof fn lemma_seq_lt_transitive(a: Seq<char>, b: Seq<char>, c: Seq<char>)
    requires
        seq_lt(a, b),
        seq_lt(b, c),
    ensures
        seq_lt(a, c),
    decreases a.len(),
{
    if a.len() > 0 && b.len() > 0 && c.len() > 0 {
        if a[0] == b[0] && b[0] == c[0] {
            lemma_seq_lt_transitive(a.drop_first(), b.drop_first(), c.drop_first());
        }
    }
}

/// Of two different texts, one orders before the other.
pub proof fn lemma_seq_lt_total(a: Seq<char>, b: Seq<char>)
    requires
        a != b,
    ensures
        seq_lt(a, b) || seq_lt(b, a),
    decreases a.len(),
{
    if a.len() == 0 {
        assert(b.len() > 0) by {
            if b.len() == 0 {
                assert(a =~= b);
            }
        }
    } else if b.len() == 0 {
    } else if a[0] != b[0] {

    } else {
        if a.drop_first() == b.drop_first() {
            assert(a =~= seq![a[0]] + a.drop_first());
            assert(b =~= seq![b[0]] + b.drop_first());
        }
        lemma_seq_lt_total(a.drop_first(), b.drop_first());
    }
}

/// Two texts never order before each other.
pub proof fn lemma_seq_lt_asymmetric(a: Seq<char>, b: Seq<char>)
    ensures
        !(seq_lt(a, b) && seq_lt(b, a)),
{
    if seq_lt(a, b) && seq_lt(b, a) {
        lemma_seq_lt_transitive(a, b, a);
        lemma_seq_lt_irreflexive(a);
    }
}

/// Whether `a` orders before `b`.
pub fn str_lt(a: &str, b: &str) -> (r: bool)
    ensures
        r == seq_lt(a@, b@),
{
    let n = a.unicode_len();
    let m = b.unicode_len();
    let mut i: usize = 0;
    while i < n && i < m && a.get_char(i) == b.get_char(i)
        invariant
            n == a@.len(),
            m == b@.len(),
            i <= n,
            i <= m,
            forall|k: int| 0 <= k < i ==> a@[k] == b@[k],
        decreases n - i,
    {
        i = i + 1;
    }
    proof {
        lemma_seq_lt_skip(a@, b@, i as int);
    }
    if i == n {
        i < m
    } else if i == m {
        false
    } else {
        a.get_char(i) < b.get_char(i)
    }
}


proof fn lemma_trim_start_idem(s: Seq<char>)
    ensures
        trim_start(trim_start(s)) == trim_start(s),
        trim_start(s).len() > 0 ==> !is_ws(trim_start(s)[0]),
    decreases s.len(),
{
    if s.len() > 0 && is_ws(s[0]) {
        lemma_trim_start_idem(s.drop_first());
    }
}

proof fn lemma_trim_end_keeps_start(s: Seq<char>)
    requires
        s.len() > 0 ==> !is_ws(s[0]),
    ensures
        trim_end(s).len() > 0 ==> !is_ws(trim_end(s)[0]),
        trim_end(trim_end(s)) == trim_end(s),
        trim_end(s).len() > 0 ==> !is_ws(trim_end(s).last()),
    decreases s.len(),
{
    if s.len() > 0 && is_ws(s.last()) {
        if s.len() > 1 {
            assert(s.drop_last()[0] == s[0]);
        }
        lemma_trim_end_keeps_start(s.drop_last());
    }
}

/// Trimming twice is the same as trimming once.
pub proof fn lemma_trim_idempotent(s: Seq<char>)
    ensures
        trim(trim(s)) == trim(s),
{
    lemma_trim_start_idem(s);
    let a = trim_start(s);
    lemma_trim_end_keeps_start(a);
    let t = trim_end(a);
    if t.len() > 0 {
        assert(trim_start(t) == t);
    } else {
        assert(trim_start(t) == t);
    }
}


/// The decimal digit of a number below ten.
pub open spec fn digit_char(d: nat) -> char {
    if d == 0 { '0' } else if d == 1 { '1' } else if d == 2 { '2' } else if d == 3 { '3' }
    else if d == 4 { '4' } else if d == 5 { '5' } else if d == 6 { '6' } else if d == 7 { '7' }
    else if d == 8 { '8' } else { '9' }
}

/// The decimal notation of `n`, as `to_string` writes an unsigned integer.
pub open spec fn decimal(n: nat) -> Seq<char>
    decreases n,
{
    if n < 10 {
        seq![digit_char(n)]
    } else {
        decimal(n / 10).push(digit_char(n % 10))
    }
}

fn digit(d: u64) -> (c: char)
    requires
        d < 10,
    ensures
        c == digit_char(d as nat),
{
    if d == 0 { '0' } else if d == 1 { '1' } else if d == 2 { '2' } else if d == 3 { '3' }
    else if d == 4 { '4' } else if d == 5 { '5' } else if d == 6 { '6' } else if d == 7 { '7' }
    else if d == 8 { '8' } else { '9' }
}

/// The decimal notation of `n`.
pub fn decimal_string(n: u64) -> (r: String)
    ensures
        r@ == decimal(n as nat),
    decreases n,
{
    if n < 10 {
        let mut r = String::new();
        push_char(&mut r, digit(n));
        proof {
            assert(r@ =~= seq![digit_char(n as nat)]);
        }
        r
    } else {
        let mut r = decimal_string(n / 10);
        push_char(&mut r, digit(n % 10));
        r
    }
}

/// The pieces of `s` between the occurrences of `sep`, as `str::split`
/// with a character gives them: one more piece than there are separators.
pub open spec fn split_on(s: Seq<char>, sep: char) -> Seq<Seq<char>>
    decreases s.len(),
{
    if s.len() == 0 {
        seq![Seq::empty()]
    } else {
        let p = split_on(s.drop_last(), sep);
        if s.last() == sep {
            p.push(Seq::empty())
        } else {
            p.update(p.len() - 1, p.last().push(s.last()))
        }
    }
}

/// `split_on` always gives at least one piece.
pub proof fn lemma_split_on_len(s: Seq<char>, sep: char)
    ensures
        split_on(s, sep).len() >= 1,
    decreases s.len(),
{
    if s.len() > 0 {
        lemma_split_on_len(s.drop_last(), sep);
    }
}

/// Splits `s` at each `sep`.
pub fn split_char(s: &str, sep: char) -> (r: Vec<String>)
    ensures
        r.deep_view() == split_on(s@, sep),
{
    let n = s.unicode_len();
    let mut done: Vec<String> = Vec::new();
    let mut cur = String::new();
    let mut i: usize = 0;
    proof {
        assert(s@.subrange(0, 0) =~= Seq::<char>::empty());
    }
    while i < n
        invariant
            n == s@.len(),
            i <= n,
            split_on(s@.subrange(0, i as int), sep).len() >= 1,
            done.deep_view() =~= split_on(s@.subrange(0, i as int), sep).drop_last(),
            cur@ == split_on(s@.subrange(0, i as int), sep).last(),
        decreases n - i,
    {
        let c = s.get_char(i);
        let ghost t = s@.subrange(0, i as int);
        let ghost t2 = s@.subrange(0, i + 1);
        proof {
            assert(t2.drop_last() =~= t);
            lemma_split_on_len(t, sep);
        }
        if c == sep {
            let ghost before = done.deep_view();
            let piece = owned(cur.as_str());
            done.push(piece);
            cur = String::new();
            proof {
                assert(done.deep_view() =~= before.push(piece@));
                let p = split_on(t, sep);
                assert(split_on(t2, sep).drop_last() =~= p);
                assert(p =~= p.drop_last().push(p.last()));
            }
        } else {
            push_char(&mut cur, c);
            proof {
                let p = split_on(t, sep);
                assert(split_on(t2, sep).drop_last() =~= p.drop_last());
            }
        }
        i = i + 1;
    }
    proof {
        assert(s@.subrange(0, n as int) =~= s@);
        lemma_split_on_len(s@, sep);
    }
    let ghost before = done.deep_view();
    done.push(cur);
    proof {
        let p = split_on(s@, sep);
        assert(done.deep_view() =~= before.push(p.last()));
        assert(p =~= p.drop_last().push(p.last()));
    }
    done
}

/// `s` with each `c` replaced by `with`.
pub open spec fn replace_char_spec(s: Seq<char>, c: char, with: Seq<char>) -> Seq<char>
    decreases s.len(),
{
    if s.len() == 0 {
        Seq::empty()
    } else {
        replace_char_spec(s.drop_last(), c, with) + (if s.last() == c {
            with
        } else {
            seq![s.last()]
        })
    }
}

/// Replaces each `c` in `s` by `with`, as `str::replace` with a character
/// pattern does.
pub fn replace_char(s: &str, c: char, with: &str) -> (r: String)
    ensures
        r@ == replace_char_spec(s@, c, with@),
{
    let n = s.unicode_len();
    let mut out = String::new();
    let mut i: usize = 0;
    proof {
        assert(s@.subrange(0, 0) =~= Seq::<char>::empty());
    }
    while i < n
        invariant
            n == s@.len(),
            i <= n,
            out@ == replace_char_spec(s@.subrange(0, i as int), c, with@),
        decreases n - i,
    {
        let d = s.get_char(i);
        proof {
            assert(s@.subrange(0, i + 1).drop_last() =~= s@.subrange(0, i as int));
        }
        if d == c {
            out.append(with);
        } else {
            push_char(&mut out, d);
            proof {
                assert(seq![d] + Seq::<char>::empty() =~= seq![d]);
            }
        }
        proof {
            assert(out@ =~= replace_char_spec(s@.subrange(0, i + 1), c, with@));
        }
        i = i + 1;
    }
    proof {
        assert(s@.subrange(0, n as int) =~= s@);
    }
    out
}

/// The entries, trimmed, that hold more than white space.
pub open spec fn trimmed_nonempty(parts: Seq<Seq<char>>) -> Seq<Seq<char>> {
    parts.map_values(|p: Seq<char>| trim(p)).filter(|p: Seq<char>| p.len() > 0)
}

/// The entries of `parts`, trimmed, leaving out those that are then empty.
pub fn trim_nonempty(parts: &Vec<String>) -> (r: Vec<String>)
    ensures
        r.deep_view() == trimmed_nonempty(parts.deep_view()),
{
    let ghost pv = parts.deep_view();
    let ghost tv = pv.map_values(|p: Seq<char>| trim(p));
    let mut out: Vec<String> = Vec::new();
    let mut i: usize = 0;
    while i < parts.len()
        invariant
            i <= parts.len(),
            pv == parts.deep_view(),
            tv == pv.map_values(|p: Seq<char>| trim(p)),
            out.deep_view() == tv.subrange(0, i as int).filter(|p: Seq<char>| p.len() > 0),
        decreases parts.len() - i,
    {
        proof {
            assert(tv.subrange(0, i + 1).drop_last() =~= tv.subrange(0, i as int));
            assert(tv[i as int] == trim(parts@[i as int]@));
            reveal(Seq::filter);
        }
        let t = trim_str(parts[i].as_str());
        if t.as_str().unicode_len() > 0 {
            let ghost before = out.deep_view();
            out.push(t);
            proof {
                assert(out.deep_view() =~= before.push(tv[i as int]));
            }
        }
        i = i + 1;
    }
    proof {
        assert(tv.subrange(0, tv.len() as int) =~= tv);
    }
    out
}

/// `s` with `x` inserted after every text that does not order after it.
pub open spec fn insert_sorted(s: Seq<Seq<char>>, x: Seq<char>) -> Seq<Seq<char>>
    decreases s.len(),
{
    if s.len() == 0 {
        seq![x]
    } else if seq_lt(x, s.last()) {
        insert_sorted(s.drop_last(), x).push(s.last())
    } else {
        s.push(x)
    }
}

/// The texts in ascending order, equal texts in their original order.
pub open spec fn sort_texts(s: Seq<Seq<char>>) -> Seq<Seq<char>>
    decreases s.len(),
{
    if s.len() == 0 {
        Seq::empty()
    } else {
        insert_sorted(sort_texts(s.drop_last()), s.last())
    }
}

/// Inserting puts the new text at `pos` when every text from `pos` on
/// orders after it and the one just before does not.
pub proof fn lemma_insert_sorted_at(s: Seq<Seq<char>>, x: Seq<char>, pos: int)
    requires
        0 <= pos <= s.len(),
        forall|k: int| pos <= k < s.len() ==> seq_lt(x, #[trigger] s[k]),
        pos == 0 || !seq_lt(x, s[pos - 1]),
    ensures
        insert_sorted(s, x) == s.insert(pos, x),
    decreases s.len(),
{
    if s.len() == pos {
        if s.len() == 0 {
            assert(s.insert(pos, x) =~= seq![x]);
        } else {
            assert(s.insert(pos, x) =~= s.push(x));
        }
    } else {
        lemma_insert_sorted_at(s.drop_last(), x, pos);
        assert(s.drop_last().insert(pos, x).push(s.last()) =~= s.insert(pos, x));
    }
}

/// The texts in ascending order, as `sort` on strings orders them.
pub fn sort_strings(v: &Vec<String>) -> (r: Vec<String>)
    ensures
        r.deep_view() == sort_texts(v.deep_view()),
{
    let ghost vv = v.deep_view();
    let mut sorted: Vec<String> = Vec::new();
    let mut j: usize = 0;
    proof {
        assert(vv.subrange(0, 0) =~= Seq::<Seq<char>>::empty());
    }
    while j < v.len()
        invariant
            j <= v@.len(),
            vv == v.deep_view(),
            sorted.deep_view() == sort_texts(vv.subrange(0, j as int)),
        decreases v@.len() - j,
    {
        proof {
            assert(vv.subrange(0, j + 1).drop_last() =~= vv.subrange(0, j as int));
            assert(vv[j as int] == v@[j as int]@);
        }
        let x = owned(v[j].as_str());
        let ghost sv = sorted.deep_view();
        let mut pos = sorted.len();
        while pos > 0 && str_lt(x.as_str(), sorted[pos - 1].as_str())
            invariant
                pos <= sorted@.len(),
                sv == sorted.deep_view(),
                forall|k: int| pos <= k < sv.len() ==> seq_lt(x@, #[trigger] sv[k]),
            decreases pos,
        {
            pos = pos - 1;
        }
        proof {
            lemma_insert_sorted_at(sv, x@, pos as int);
        }
        let ghost xv = x@;
        sorted.insert(pos, x);
        proof {
            assert(sorted.deep_view() =~= sv.insert(pos as int, xv));
        }
        j = j + 1;
    }
    proof {
        assert(vv.subrange(0, vv.len() as int) =~= vv);
    }
    sorted
}


/// The texts with each run of equal neighbours kept once, as `dedup` on a
/// vector keeps them.
pub open spec fn dedup_texts(s: Seq<Seq<char>>) -> Seq<Seq<char>>
    decreases s.len(),
{
    if s.len() == 0 {
        Seq::empty()
    } else {
        let d = dedup_texts(s.drop_last());
        if d.len() > 0 && d.last() == s.last() {
            d
        } else {
            d.push(s.last())
        }
    }
}

/// The texts with each run of equal neighbours kept once.
pub fn dedup_strings(v: &Vec<String>) -> (r: Vec<String>)
    ensures
        r.deep_view() == dedup_texts(v.deep_view()),
{
    let ghost vv = v.deep_view();
    let mut out: Vec<String> = Vec::new();
    let mut j: usize = 0;
    proof {
        assert(vv.subrange(0, 0) =~= Seq::<Seq<char>>::empty());
    }
    while j < v.len()
        invariant
            j <= v@.len(),
            vv == v.deep_view(),
            out.deep_view() == dedup_texts(vv.subrange(0, j as int)),
        decreases v@.len() - j,
    {
        proof {
            assert(vv.subrange(0, j + 1).drop_last() =~= vv.subrange(0, j as int));
            assert(vv[j as int] == v@[j as int]@);
        }
        let n = out.len();
        let same = n > 0 && str_eq(out[n - 1].as_str(), v[j].as_str());
        if !same {
            let ghost before = out.deep_view();
            out.push(owned(v[j].as_str()));
            proof {
                assert(out.deep_view() =~= before.push(vv[j as int]));
            }
        }
        j = j + 1;
    }
    proof {
        assert(vv.subrange(0, v@.len() as int) =~= vv);
    }
    out
}


/// The texts are in ascending order: none orders before one ahead of it.
pub open spec fn texts_sorted(s: Seq<Seq<char>>) -> bool {
    forall|i: int, j: int| 0 <= i < j < s.len() ==> !seq_lt(#[trigger] s[j], #[trigger] s[i])
}

/// The texts are in strictly ascending order.
pub open spec fn texts_strictly_sorted(s: Seq<Seq<char>>) -> bool {
    forall|i: int, j: int| 0 <= i < j < s.len() ==> seq_lt(#[trigger] s[i], #[trigger] s[j])
}

proof fn lemma_insert_sorted_bound(s: Seq<Seq<char>>, x: Seq<char>, b: Seq<char>)
    requires
        forall|i: int| 0 <= i < s.len() ==> !seq_lt(b, #[trigger] s[i]),
        !seq_lt(b, x),
    ensures
        insert_sorted(s, x).len() == s.len() + 1,
        forall|i: int| 0 <= i < insert_sorted(s, x).len() ==> !seq_lt(b, #[trigger] insert_sorted(s, x)[i]),
    decreases s.len(),
{
    if s.len() > 0 && seq_lt(x, s.last()) {
        lemma_insert_sorted_bound(s.drop_last(), x, b);
        let r = insert_sorted(s, x);
        let p = insert_sorted(s.drop_last(), x);
        assert forall|i: int| 0 <= i < r.len() implies !seq_lt(b, #[trigger] r[i]) by {
            if i < p.len() {
                assert(r[i] == p[i]);
            } else {
                assert(r[i] == s.last());
            }
        }
    } else if s.len() > 0 {
        let r = insert_sorted(s, x);
        assert forall|i: int| 0 <= i < r.len() implies !seq_lt(b, #[trigger] r[i]) by {
            if i < s.len() {
                assert(r[i] == s[i]);
            }
        }
    }
}

proof fn lemma_insert_sorted_sorted(s: Seq<Seq<char>>, x: Seq<char>)
    requires
        texts_sorted(s),
    ensures
        texts_sorted(insert_sorted(s, x)),
        insert_sorted(s, x).len() == s.len() + 1,
    decreases s.len(),
{
    if s.len() == 0 {
    } else if seq_lt(x, s.last()) {
        let l = s.last();
        let p = insert_sorted(s.drop_last(), x);
        lemma_insert_sorted_sorted(s.drop_last(), x);
        lemma_seq_lt_asymmetric(x, l);
        assert forall|i: int| 0 <= i < s.drop_last().len() implies !seq_lt(l, #[trigger] s.drop_last()[i]) by {
            assert(s.drop_last()[i] == s[i]);
            assert(!seq_lt(s[s.len() - 1], s[i]));
        }
        lemma_insert_sorted_bound(s.drop_last(), x, l);
        let r = insert_sorted(s, x);
        assert(r == p.push(l));
        assert forall|i: int, j: int| 0 <= i < j < r.len() implies !seq_lt(#[trigger] r[j], #[trigger] r[i]) by {
            if j < p.len() {
                assert(r[i] == p[i] && r[j] == p[j]);
            } else {
                assert(r[j] == l);
                assert(r[i] == p[i]);
            }
        }
    } else {
        let l = s.last();
        let r = s.push(x);
        assert forall|i: int, j: int| 0 <= i < j < r.len() implies !seq_lt(#[trigger] r[j], #[trigger] r[i]) by {
            if j < s.len() {
                assert(r[i] == s[i] && r[j] == s[j]);
            } else {
                assert(r[j] == x);
                assert(r[i] == s[i]);
                if seq_lt(x, s[i]) {
                    if i == s.len() - 1 {
                        assert(s[i] == l);
                    } else {
                        assert(!seq_lt(s[s.len() - 1], s[i]));
                        if x == l {
                            assert(seq_lt(l, s[i]));
                        } else {
                            lemma_seq_lt_total(x, l);
                            assert(seq_lt(l, x));
                            lemma_seq_lt_transitive(l, x, s[i]);
                        }
                    }
                }
            }
        }
    }
}

/// Sorting gives the texts in ascending order.
pub proof fn lemma_sort_texts_sorted(s: Seq<Seq<char>>)
    ensures
        texts_sorted(sort_texts(s)),
        sort_texts(s).len() == s.len(),
    decreases s.len(),
{
    if s.len() > 0 {
        lemma_sort_texts_sorted(s.drop_last());
        lemma_insert_sorted_sorted(sort_texts(s.drop_last()), s.last());
    }
}

/// Keeping each run of equal neighbours of ascending texts once gives them
/// in strictly ascending order, ending with the same text.
pub proof fn lemma_dedup_sorted_strict(s: Seq<Seq<char>>)
    requires
        texts_sorted(s),
    ensures
        texts_strictly_sorted(dedup_texts(s)),
        s.len() > 0 ==> dedup_texts(s).len() > 0 && dedup_texts(s).last() == s.last(),
        dedup_texts(s).len() <= s.len(),
    decreases s.len(),
{
    if s.len() > 0 {
        let p = s.drop_last();
        assert(texts_sorted(p)) by {
            assert forall|i: int, j: int| 0 <= i < j < p.len() implies !seq_lt(#[trigger] p[j], #[trigger] p[i]) by {
                assert(p[i] == s[i] && p[j] == s[j]);
            }
        }
        lemma_dedup_sorted_strict(p);
        let d = dedup_texts(p);
        let x = s.last();
        if d.len() > 0 && d.last() == x {
        } else {
            let r = d.push(x);
            if d.len() > 0 {
                assert(d.last() == p.last());
                assert(p.last() == s[s.len() - 2]);
                assert(!seq_lt(s[s.len() - 1], s[s.len() - 2]));
                lemma_seq_lt_total(d.last(), x);
            }
            assert forall|i: int, j: int| 0 <= i < j < r.len() implies seq_lt(#[trigger] r[i], #[trigger] r[j]) by {
                if j < d.len() {
                    assert(r[i] == d[i] && r[j] == d[j]);
                } else {
                    assert(r[j] == x);
                    assert(r[i] == d[i]);
                    if i < d.len() - 1 {
                        assert(seq_lt(d[i], d[d.len() - 1]));
                        lemma_seq_lt_transitive(d[i], d.last(), x);
                    }
                }
            }
        }
    }
}

/// Whether `v` holds the text `x`.
pub fn text_listed(v: &Vec<String>, x: &str) -> (b: bool)
    ensures
        b == v.deep_view().contains(x@),
{
    let ghost dv = v.deep_view();
    let mut i: usize = 0;
    while i < v.len()
        invariant
            i <= v@.len(),
            dv == v.deep_view(),
            forall|j: int| 0 <= j < i ==> dv[j] != x@,
        decreases v@.len() - i,
    {
        if str_eq(v[i].as_str(), x) {
            proof {
                assert(dv[i as int] == x@);
            }
            return true;
        }
        i = i + 1;
    }
    false
}

} // verus!
