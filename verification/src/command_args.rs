//! Parsing of the argument string of a slash command against the command's
//! argument schema.

use vstd::prelude::*;
use crate::text::{join, join_spec, char_is_ws, char_to_lower, has_prefix, is_ws, lower_char, owned, push_char, str_eq, trim, trim_str};
use crate::text_map::{distinct_keys, lemma_pairs_map_lookup, lemma_pairs_map_set, lemma_pairs_map_len, pairs_map};

verus! {

/// `k` without any leading `-` characters.
pub open spec fn strip_dashes(k: Seq<char>) -> Seq<char>
    decreases k.len(),
{
    if k.len() > 0 && k[0] == '-' {
        strip_dashes(k.drop_first())
    } else {
        k
    }
}

/// `_` replaced by `-`, then ASCII letters lowered.
pub open spec fn dash_lower_char(c: char) -> char {
    if c == '_' {
        '-'
    } else {
        lower_char(c)
    }
}

/// The canonical form of a field key: trimmed, without leading dashes, with
/// `_` written as `-`, in ASCII lower case.
pub open spec fn normalize_key(k: Seq<char>) -> Seq<char> {
    strip_dashes(trim(k)).map_values(|c: char| dash_lower_char(c))
}

proof fn lemma_strip_dashes_skip(k: Seq<char>, i: int)
    requires
        0 <= i <= k.len(),
        forall|j: int| 0 <= j < i ==> k[j] == '-',
        i == k.len() || k[i] != '-',
    ensures
        strip_dashes(k) == k.subrange(i, k.len() as int),
    decreases i,
{
    if i > 0 {
        lemma_strip_dashes_skip(k.drop_first(), i - 1);
        assert(k.drop_first().subrange(i - 1, k.drop_first().len() as int) =~= k.subrange(
            i,
            k.len() as int,
        ));
    } else {
        assert(k.subrange(0, k.len() as int) =~= k);
    }
}

/// The canonical form of a field key, under which parsed values are held.
pub fn normalize_field_key(key: &str) -> (r: String)
    ensures
        r@ == normalize_key(key@),
{
    let t = trim_str(key);
    let s = t.as_str();
    let n = s.unicode_len();
    let mut i: usize = 0;
    while i < n && s.get_char(i) == '-'
        invariant
            n == s@.len(),
            i <= n,
            forall|j: int| 0 <= j < i ==> s@[j] == '-',
        decreases n - i,
    {
        i = i + 1;
    }
    proof {
        lemma_strip_dashes_skip(s@, i as int);
    }
    let ghost rest = s@.subrange(i as int, n as int);
    let mut r = String::new();
    let mut j: usize = i;
    while j < n
        invariant
            n == s@.len(),
            i <= j <= n,
            rest == s@.subrange(i as int, n as int),
            r@ == s@.subrange(i as int, j as int).map_values(|c: char| dash_lower_char(c)),
        decreases n - j,
    {
        let c = s.get_char(j);
        let d = if c == '_' {
            '-'
        } else {
            char_to_lower(c)
        };
        push_char(&mut r, d);
        proof {
            assert(s@.subrange(i as int, j + 1).map_values(|c: char| dash_lower_char(c))
                =~= s@.subrange(i as int, j as int).map_values(|c: char| dash_lower_char(c)).push(
                d,
            ));
        }
        j = j + 1;
    }
    r
}

/// The state of the argument tokenizer between two characters.
pub struct TokState {
    pub tokens: Seq<Seq<char>>,
    pub current: Seq<char>,
    pub quote: Option<char>,
    pub escape: bool,
}

/// The tokenizer's state before any character.
pub open spec fn tok_init() -> TokState {
    TokState { tokens: Seq::empty(), current: Seq::empty(), quote: None, escape: false }
}

/// The tokenizer's state after one more character `ch`: a backslash escapes
/// the next character; a quote opens a quoted run, or closes the run that the
/// same quote opened, and is kept as a character inside a run of the other
/// quote; white space outside quotes ends the current token; any other
/// character is added to the current token.
pub open spec fn tok_step(st: TokState, ch: char) -> TokState {
    if st.escape {
        TokState { current: st.current.push(ch), escape: false, ..st }
    } else if ch == '\\' {
        TokState { escape: true, ..st }
    } else if ch == '"' || ch == '\'' {
        if st.quote == Some(ch) {
            TokState { quote: None, ..st }
        } else if st.quote is None {
            TokState { quote: Some(ch), ..st }
        } else {
            TokState { current: st.current.push(ch), ..st }
        }
    } else if is_ws(ch) && st.quote is None {
        if st.current.len() > 0 {
            TokState { tokens: st.tokens.push(st.current), current: Seq::empty(), ..st }
        } else {
            st
        }
    } else {
        TokState { current: st.current.push(ch), ..st }
    }
}

/// The tokenizer's state after the characters of `s`, starting from `st`.
pub open spec fn tok_from(st: TokState, s: Seq<char>) -> TokState
    decreases s.len(),
{
    if s.len() == 0 {
        st
    } else {
        tok_step(tok_from(st, s.drop_last()), s.last())
    }
}

/// The tokens of `raw`: the tokens ended so far, and the token in progress at
/// the end if it is not empty.
pub open spec fn tokenize_spec(raw: Seq<char>) -> Seq<Seq<char>> {
    let st = tok_from(tok_init(), raw);
    if st.current.len() > 0 {
        st.tokens.push(st.current)
    } else {
        st.tokens
    }
}

/// Splits an argument string into tokens, honoring quotes and backslash
/// escapes.
pub fn tokenize(raw: &str) -> (r: Vec<String>)
    ensures
        r.deep_view() == tokenize_spec(raw@),
{
    let n = raw.unicode_len();
    let mut tokens: Vec<String> = Vec::new();
    let mut current = String::new();
    let mut quote: Option<char> = None;
    let mut escape = false;
    let mut i: usize = 0;
    proof {
        assert(tokens.deep_view() =~= Seq::<Seq<char>>::empty());
        assert(raw@.subrange(0, 0) =~= Seq::<char>::empty());
    }
    while i < n
        invariant
            n == raw@.len(),
            i <= n,
            tok_from(tok_init(), raw@.subrange(0, i as int)) == (TokState {
                tokens: tokens.deep_view(),
                current: current@,
                quote: quote,
                escape: escape,
            }),
        decreases n - i,
    {
        let ch = raw.get_char(i);
        proof {
            assert(raw@.subrange(0, i + 1).drop_last() =~= raw@.subrange(0, i as int));
        }
        let ghost before = tokens.deep_view();
        if escape {
            push_char(&mut current, ch);
            escape = false;
        } else if ch == '\\' {
            escape = true;
        } else if ch == '"' || ch == '\'' {
            if quote == Some(ch) {
                quote = None;
            } else if quote.is_none() {
                quote = Some(ch);
            } else {
                push_char(&mut current, ch);
            }
        } else if char_is_ws(ch) && quote.is_none() {
            if current.as_str().unicode_len() > 0 {
                tokens.push(current);
                current = String::new();
                proof {
                    assert(tokens.deep_view() =~= before.push(
                        tok_from(tok_init(), raw@.subrange(0, i as int)).current,
                    ));
                }
            }
        } else {
            push_char(&mut current, ch);
        }
        i = i + 1;
    }
    proof {
        assert(raw@.subrange(0, n as int) =~= raw@);
    }
    if current.as_str().unicode_len() > 0 {
        let ghost before = tokens.deep_view();
        let ghost cur = current@;
        tokens.push(current);
        proof {
            assert(tokens.deep_view() =~= before.push(cur));
        }
    }
    tokens
}


/// Characters that a value may hold and still be written without quotes.
pub open spec fn is_plain_char(c: char) -> bool {
    ||| ('0' <= c && c <= '9')
    ||| ('a' <= c && c <= 'z')
    ||| ('A' <= c && c <= 'Z')
    ||| c == '/'
    ||| c == '-'
    ||| c == '_'
    ||| c == '.'
    ||| c == '*'
    ||| c == ':'
}

/// One character as written inside double quotes: a backslash or a double
/// quote is preceded by a backslash.
pub open spec fn escape_char(c: char) -> Seq<char> {
    if c == '\\' {
        seq!['\\', '\\']
    } else if c == '"' {
        seq!['\\', '"']
    } else {
        seq![c]
    }
}

/// The characters of `v` as written inside double quotes.
pub open spec fn escape_seq(v: Seq<char>) -> Seq<char>
    decreases v.len(),
{
    if v.len() == 0 {
        Seq::empty()
    } else {
        escape_seq(v.drop_last()) + escape_char(v.last())
    }
}

/// `v` written as one shell-style argument: `""` when empty, as it is when
/// every character is plain, and otherwise in double quotes with backslashes
/// and double quotes escaped.
pub open spec fn shell_quote_spec(v: Seq<char>) -> Seq<char> {
    if v.len() == 0 {
        seq!['"', '"']
    } else if forall|i: int| 0 <= i < v.len() ==> is_plain_char(#[trigger] v[i]) {
        v
    } else {
        seq!['"'] + escape_seq(v) + seq!['"']
    }
}

fn char_is_plain(c: char) -> (b: bool)
    ensures
        b == is_plain_char(c),
{
    ('0' <= c && c <= '9') || ('a' <= c && c <= 'z') || ('A' <= c && c <= 'Z') || c == '/' || c
        == '-' || c == '_' || c == '.' || c == '*' || c == ':'
}

/// Writes a value as one argument that `tokenize` reads back.
pub fn shell_quote(value: &str) -> (r: String)
    ensures
        r@ == shell_quote_spec(value@),
{
    let n = value.unicode_len();
    let mut r = String::new();
    if n == 0 {
        push_char(&mut r, '"');
        push_char(&mut r, '"');
        proof {
            assert(r@ =~= seq!['"', '"']);
        }
        return r;
    }
    let mut i: usize = 0;
    while i < n && char_is_plain(value.get_char(i))
        invariant
            n == value@.len(),
            i <= n,
            forall|j: int| 0 <= j < i ==> is_plain_char(#[trigger] value@[j]),
        decreases n - i,
    {
        i = i + 1;
    }
    if i == n {
        return owned(value);
    }
    push_char(&mut r, '"');
    let mut j: usize = 0;
    while j < n
        invariant
            n == value@.len(),
            j <= n,
            r@ == seq!['"'] + escape_seq(value@.subrange(0, j as int)),
        decreases n - j,
    {
        let c = value.get_char(j);
        if c == '\\' || c == '"' {
            push_char(&mut r, '\\');
        }
        push_char(&mut r, c);
        proof {
            assert(value@.subrange(0, j + 1).drop_last() =~= value@.subrange(0, j as int));
            assert(r@ =~= seq!['"'] + escape_seq(value@.subrange(0, j + 1)));
        }
        j = j + 1;
    }
    push_char(&mut r, '"');
    proof {
        assert(value@.subrange(0, n as int) =~= value@);
        assert(!is_plain_char(value@[i as int]));
    }
    r
}

proof fn lemma_tok_from_append(st: TokState, a: Seq<char>, b: Seq<char>)
    ensures
        tok_from(st, a + b) == tok_from(tok_from(st, a), b),
    decreases b.len(),
{
    if b.len() == 0 {
        assert(a + b =~= a);
    } else {
        assert((a + b).drop_last() =~= a + b.drop_last());
        lemma_tok_from_append(st, a, b.drop_last());
    }
}

proof fn lemma_tok_short(st: TokState, a: char, b: char)
    ensures
        tok_from(st, seq![a]) == tok_step(st, a),
        tok_from(st, seq![a, b]) == tok_step(tok_step(st, a), b),
{
    assert(seq![a].drop_last() =~= Seq::<char>::empty());
    assert(seq![a, b].drop_last() =~= seq![a]);
    assert(tok_from(st, Seq::<char>::empty()) == st);
}

proof fn lemma_tok_plain(v: Seq<char>)
    requires
        forall|i: int| 0 <= i < v.len() ==> is_plain_char(#[trigger] v[i]),
    ensures
        tok_from(tok_init(), v) == (TokState {
            tokens: Seq::empty(),
            current: v,
            quote: None,
            escape: false,
        }),
    decreases v.len(),
{
    if v.len() > 0 {
        lemma_tok_plain(v.drop_last());
        assert(is_plain_char(v[v.len() - 1]));
        assert(v.drop_last().push(v.last()) =~= v);
        assert(!is_ws(v.last()));
    } else {
        assert(v =~= Seq::<char>::empty());
    }
}

/// The tokenizer's state inside a double-quoted run holding `cur`.
pub open spec fn in_double_quotes(cur: Seq<char>) -> TokState {
    TokState { tokens: Seq::empty(), current: cur, quote: Some('"'), escape: false }
}

proof fn lemma_tok_escaped(cur: Seq<char>, w: Seq<char>)
    ensures
        tok_from(in_double_quotes(cur), escape_seq(w)) == in_double_quotes(cur + w),
    decreases w.len(),
{
    if w.len() == 0 {
        assert(cur + w =~= cur);
    } else {
        let w0 = w.drop_last();
        let c = w.last();
        lemma_tok_escaped(cur, w0);
        lemma_tok_from_append(in_double_quotes(cur), escape_seq(w0), escape_char(c));
        let st = in_double_quotes(cur + w0);
        assert((cur + w0).push(c) =~= cur + w);
        assert(escape_seq(w) == escape_seq(w0) + escape_char(c));
        if c == '\\' || c == '"' {
            lemma_tok_short(st, '\\', c);
            assert(escape_char(c) =~= seq!['\\', c]);
            assert(tok_step(st, '\\') == TokState { escape: true, ..st });
        } else {
            lemma_tok_short(st, c, c);
            assert(escape_char(c) =~= seq![c]);
        }
    }
}

/// Reading back a value written by `shell_quote` gives exactly that value as
/// one token, for every non-empty value.
pub proof fn lemma_tokenize_shell_quote(v: Seq<char>)
    requires
        v.len() > 0,
    ensures
        tokenize_spec(shell_quote_spec(v)) == seq![v],
{
    if forall|i: int| 0 <= i < v.len() ==> is_plain_char(#[trigger] v[i]) {
        lemma_tok_plain(v);
        assert(Seq::<Seq<char>>::empty().push(v) =~= seq![v]);
    } else {
        let q = shell_quote_spec(v);
        assert(q == seq!['"'] + escape_seq(v) + seq!['"']);
        lemma_tok_from_append(tok_init(), seq!['"'] + escape_seq(v), seq!['"']);
        lemma_tok_from_append(tok_init(), seq!['"'], escape_seq(v));
        lemma_tok_short(tok_init(), '"', '"');
        assert(tok_from(tok_init(), seq!['"']) == in_double_quotes(Seq::empty()));
        lemma_tok_short(in_double_quotes(v), '"', '"');
        lemma_tok_escaped(Seq::empty(), v);
        assert(Seq::<char>::empty() + v =~= v);
        assert(Seq::<Seq<char>>::empty().push(v) =~= seq![v]);
    }
}


/// Whether a character can stand inside a quoted run as itself: it is no
/// quote and no backslash.
pub open spec fn is_unquoting_free(c: char) -> bool {
    c != '"' && c != '\'' && c != '\\'
}

/// The tokenizer inside a run opened by the quote `q`, holding `cur`, with
/// the tokens `tokens` ended before it.
pub open spec fn in_quotes(tokens: Seq<Seq<char>>, q: char, cur: Seq<char>) -> TokState {
    TokState { tokens, current: cur, quote: Some(q), escape: false }
}

proof fn lemma_tok_quoted_run(tokens: Seq<Seq<char>>, q: char, cur: Seq<char>, w: Seq<char>)
    requires
        forall|i: int| 0 <= i < w.len() ==> is_unquoting_free(#[trigger] w[i]),
    ensures
        tok_from(in_quotes(tokens, q, cur), w) == in_quotes(tokens, q, cur + w),
    decreases w.len(),
{
    if w.len() == 0 {
        assert(cur + w =~= cur);
    } else {
        lemma_tok_quoted_run(tokens, q, cur, w.drop_last());
        assert(is_unquoting_free(w[w.len() - 1]));
        assert((cur + w.drop_last()).push(w.last()) =~= cur + w);
    }
}

/// A run in single quotes is one token without its quotes: for every
/// non-empty value holding no quote and no backslash (blanks included),
/// `'value'` reads as exactly that value, just as `"value"` does.
pub proof fn lemma_quoted_run_is_one_token(v: Seq<char>)
    requires
        v.len() > 0,
        forall|i: int| 0 <= i < v.len() ==> is_unquoting_free(#[trigger] v[i]),
    ensures
        tokenize_spec(seq!['\''] + v + seq!['\'']) == seq![v],
        tokenize_spec(seq!['"'] + v + seq!['"']) == seq![v],
{
    let e = Seq::<Seq<char>>::empty();
    lemma_tok_from_append(tok_init(), seq!['\''] + v, seq!['\'']);
    lemma_tok_from_append(tok_init(), seq!['\''], v);
    lemma_tok_short(tok_init(), '\'', '\'');
    assert(tok_from(tok_init(), seq!['\'']) == in_quotes(e, '\'', Seq::empty()));
    lemma_tok_quoted_run(e, '\'', Seq::empty(), v);
    assert(Seq::<char>::empty() + v =~= v);
    lemma_tok_short(in_quotes(e, '\'', v), '\'', '\'');
    assert(e.push(v) =~= seq![v]);

    lemma_tok_from_append(tok_init(), seq!['"'] + v, seq!['"']);
    lemma_tok_from_append(tok_init(), seq!['"'], v);
    lemma_tok_short(tok_init(), '"', '"');
    assert(tok_from(tok_init(), seq!['"']) == in_quotes(e, '"', Seq::empty()));
    lemma_tok_quoted_run(e, '"', Seq::empty(), v);
    lemma_tok_short(in_quotes(e, '"', v), '"', '"');
}

/// A flag followed by a blank and a single-quoted value reads as two
/// tokens: the flag, and the value without its quotes.
pub proof fn lemma_flag_then_quoted_value(flag: Seq<char>, v: Seq<char>)
    requires
        flag.len() > 0,
        forall|i: int| 0 <= i < flag.len() ==> is_plain_char(#[trigger] flag[i]),
        v.len() > 0,
        forall|i: int| 0 <= i < v.len() ==> is_unquoting_free(#[trigger] v[i]),
    ensures
        tokenize_spec(flag + seq![' '] + seq!['\''] + v + seq!['\'']) == seq![flag, v],
{
    let e = Seq::<Seq<char>>::empty();
    let pre = flag + seq![' '];
    lemma_tok_plain(flag);
    lemma_tok_from_append(tok_init(), flag, seq![' ']);
    lemma_tok_short(tok_from(tok_init(), flag), ' ', ' ');
    let st1 = tok_from(tok_init(), pre);
    assert(st1 == TokState { tokens: seq![flag], current: Seq::empty(), quote: None, escape: false }) by {
        assert(e.push(flag) =~= seq![flag]);
    }
    let full = flag + seq![' '] + seq!['\''] + v + seq!['\''];
    assert(full =~= pre + (seq!['\''] + v + seq!['\'']));
    lemma_tok_from_append(tok_init(), pre, seq!['\''] + v + seq!['\'']);
    lemma_tok_from_append(st1, seq!['\''] + v, seq!['\'']);
    lemma_tok_from_append(st1, seq!['\''], v);
    lemma_tok_short(st1, '\'', '\'');
    assert(tok_from(st1, seq!['\'']) == in_quotes(seq![flag], '\'', Seq::empty()));
    lemma_tok_quoted_run(seq![flag], '\'', Seq::empty(), v);
    assert(Seq::<char>::empty() + v =~= v);
    lemma_tok_short(in_quotes(seq![flag], '\'', v), '\'', '\'');
    assert(seq![flag].push(v) =~= seq![flag, v]);
}

/// The shape of a value that a command argument takes.
#[derive(Clone, Copy, Debug, PartialEq, Eq, Structural)]
pub enum CommandArgumentKind {
    Text,
    LongText,
    CommandLine,
    GlobList,
    Boolean,
    /// Any other shape.
    Other,
}

/// One suggested value of a command argument.
#[derive(Debug)]
pub struct CommandArgumentOption {
    pub label: String,
    pub description: Option<String>,
}

impl Clone for CommandArgumentOption {
    fn clone(&self) -> (r: Self)
        ensures
            r == *self,
    {
        CommandArgumentOption {
            label: self.label.clone(),
            description: match &self.description {
                Some(d) => Some(d.clone()),
                None => None,
            },
        }
    }
}

/// One argument of a command's argument schema.
#[derive(Debug)]
pub struct CommandArgumentField {
    pub key: String,
    pub label: String,
    pub required: bool,
    pub kind: CommandArgumentKind,
    pub repeatable: bool,
    pub options: Vec<CommandArgumentOption>,
}

/// Two fields with the same key, label, flags, shape and options.
pub open spec fn same_field(a: CommandArgumentField, b: CommandArgumentField) -> bool {
    &&& a.key == b.key
    &&& a.label == b.label
    &&& a.required == b.required
    &&& a.kind == b.kind
    &&& a.repeatable == b.repeatable
    &&& a.options@ == b.options@
}

impl Clone for CommandArgumentField {
    fn clone(&self) -> (r: Self)
        ensures
            same_field(r, *self),
    {
        let options = self.options.clone();
        proof {
            assert(options@ =~= self.options@);
        }
        CommandArgumentField {
            key: self.key.clone(),
            label: self.label.clone(),
            required: self.required,
            kind: self.kind,
            repeatable: self.repeatable,
            options,
        }
    }
}

/// A copy of a list of strings.
pub fn clone_strings(v: &Vec<String>) -> (r: Vec<String>)
    ensures
        r.deep_view() == v.deep_view(),
{
    let mut r: Vec<String> = Vec::new();
    let mut i: usize = 0;
    while i < v.len()
        invariant
            i <= v@.len(),
            r.deep_view() == v.deep_view().subrange(0, i as int),
        decreases v@.len() - i,
    {
        let ghost before = r.deep_view();
        r.push(v[i].clone());
        proof {
            assert(r.deep_view() =~= before.push(v[i as int]@));
            assert(v.deep_view().subrange(0, i + 1) =~= v.deep_view().subrange(0, i as int).push(
                v[i as int]@,
            ));
        }
        i = i + 1;
    }
    proof {
        assert(v.deep_view().subrange(0, v@.len() as int) =~= v.deep_view());
    }
    r
}

/// The values held under `k`, or none.
pub open spec fn held_values(m: Map<Seq<char>, Seq<Seq<char>>>, k: Seq<char>) -> Seq<Seq<char>> {
    if m.dom().contains(k) {
        m[k]
    } else {
        Seq::empty()
    }
}

/// `m` with `vals` added after the values held under `k`; unchanged when
/// `vals` is empty.
pub open spec fn add_values(m: Map<Seq<char>, Seq<Seq<char>>>, k: Seq<char>, vals: Seq<Seq<char>>) -> Map<
    Seq<char>,
    Seq<Seq<char>>,
> {
    if vals.len() == 0 {
        m
    } else {
        m.insert(k, held_values(m, k) + vals)
    }
}

/// Parsed command arguments: the values given for each normalized field key.
pub struct ArgumentMap {
    entries: Vec<(String, Vec<String>)>,
}

impl ArgumentMap {
    /// The entries as keys and value lists of character sequences.
    pub closed spec fn pairs(&self) -> Seq<(Seq<char>, Seq<Seq<char>>)> {
        self.entries@.map_values(|e: (String, Vec<String>)| (e.0@, e.1.deep_view()))
    }

    /// The values given for each key.
    pub closed spec fn view(&self) -> Map<Seq<char>, Seq<Seq<char>>> {
        pairs_map(self.pairs())
    }

    /// Each key is held once.
    pub closed spec fn wf(&self) -> bool {
        distinct_keys(self.pairs())
    }

    /// No arguments.
    pub fn new() -> (m: Self)
        ensures
            m.wf(),
            m.view() == Map::<Seq<char>, Seq<Seq<char>>>::empty(),
    {
        let m = ArgumentMap { entries: Vec::new() };
        assert(m.pairs() =~= Seq::<(Seq<char>, Seq<Seq<char>>)>::empty());
        m
    }

    fn find(&self, key: &str) -> (r: Option<usize>)
        requires
            self.wf(),
        ensures
            r is None ==> !self.view().dom().contains(key@),
            r matches Some(i) ==> i < self.entries@.len() && self.pairs()[i as int].0 == key@
                && self.view().dom().contains(key@) && self.view()[key@] == self.pairs()[i as int].1,
    {
        let mut i: usize = 0;
        while i < self.entries.len()
            invariant
                self.wf(),
                i <= self.entries@.len(),
                forall|j: int| 0 <= j < i ==> self.pairs()[j].0 != key@,
            decreases self.entries@.len() - i,
        {
            if str_eq(self.entries[i].0.as_str(), key) {
                proof {
                    lemma_pairs_map_lookup(self.pairs(), key@);
                }
                return Some(i);
            }
            i = i + 1;
        }
        proof {
            lemma_pairs_map_lookup(self.pairs(), key@);
        }
        None
    }

    /// The number of keys with values.
    pub fn len(&self) -> (n: usize)
        requires
            self.wf(),
        ensures
            n == self.view().len(),
    {
        proof {
            lemma_pairs_map_len(self.pairs());
        }
        self.entries.len()
    }

    /// The values given for `key`, if any.
    pub fn get(&self, key: &str) -> (r: Option<Vec<String>>)
        requires
            self.wf(),
        ensures
            r is Some <==> self.view().dom().contains(key@),
            r matches Some(v) ==> v.deep_view() == self.view()[key@],
    {
        match self.find(key) {
            Some(i) => Some(clone_strings(&self.entries[i].1)),
            None => None,
        }
    }

    /// Adds `values` after the values held under `key`.
    pub fn extend(&mut self, key: &str, values: Vec<String>)
        requires
            old(self).wf(),
        ensures
            final(self).wf(),
            final(self).view() == add_values(old(self).view(), key@, values.deep_view()),
    {
        if values.len() == 0 {
            return;
        }
        let ghost vals = values.deep_view();
        match self.find(key) {
            Some(i) => {
                let ghost before = self.pairs();
                let mut merged = clone_strings(&self.entries[i].1);
                let mut j: usize = 0;
                while j < values.len()
                    invariant
                        j <= values@.len(),
                        vals == values.deep_view(),
                        merged.deep_view() == before[i as int].1 + vals.subrange(0, j as int),
                    decreases values@.len() - j,
                {
                    let ghost m0 = merged.deep_view();
                    merged.push(values[j].clone());
                    proof {
                        assert(merged.deep_view() =~= m0.push(vals[j as int]));
                        assert(vals.subrange(0, j + 1) =~= vals.subrange(0, j as int).push(
                            vals[j as int],
                        ));
                        assert(before[i as int].1 + vals.subrange(0, j + 1) =~= (before[i as int].1
                            + vals.subrange(0, j as int)).push(vals[j as int]));
                    }
                    j = j + 1;
                }
                proof {
                    assert(vals.subrange(0, vals.len() as int) =~= vals);
                }
                let k = self.entries[i].0.clone();
                self.entries.set(i, (k, merged));
                proof {
                    assert(self.pairs() =~= before.update(
                        i as int,
                        (before[i as int].0, before[i as int].1 + vals),
                    ));
                    lemma_pairs_map_set(before, i as int, before[i as int].1 + vals);
                }
            },
            None => {
                let ghost before = self.pairs();
                self.entries.push((owned(key), values));
                proof {
                    assert(self.pairs() =~= before.push((key@, vals)));
                    assert(self.pairs().drop_last() =~= before);
                    lemma_pairs_map_lookup(before, key@);
                    assert(Seq::<Seq<char>>::empty() + vals =~= vals);
                    assert forall|a: int, b: int|
                        0 <= a < b < self.pairs().len() implies self.pairs()[a].0
                        != self.pairs()[b].0 by {
                        if b == before.len() {
                            assert(before[a].0 == self.pairs()[a].0);
                        }
                    }
                }
            },
        }
    }
}

/// A token that names a field: it starts with `--`.
pub open spec fn is_flag(t: Seq<char>) -> bool {
    has_prefix(t, seq!['-', '-'])
}

/// `t` without every leading `--`.
pub open spec fn strip_flag(t: Seq<char>) -> Seq<char>
    decreases t.len(),
{
    if t.len() >= 2 && t[0] == '-' && t[1] == '-' {
        strip_flag(t.subrange(2, t.len() as int))
    } else {
        t
    }
}

/// The last field among the first `j` whose normalized key is `key`.
pub open spec fn field_index(fields: Seq<CommandArgumentField>, key: Seq<char>, j: int) -> Option<
    int,
>
    decreases j,
{
    if j <= 0 {
        None
    } else if normalize_key(fields[j - 1].key@) == key {
        Some(j - 1)
    } else {
        field_index(fields, key, j - 1)
    }
}

/// Whether a field takes every value up to the next flag rather than one.
pub open spec fn takes_many(f: CommandArgumentField) -> bool {
    f.repeatable || f.kind == CommandArgumentKind::GlobList
}

/// Where the values that follow a flag end: at the next flag or the end of the
/// tokens, or after one value for a field that takes one.
pub open spec fn capture_end(tokens: Seq<Seq<char>>, c: int, many: bool) -> int
    decreases tokens.len() - c,
{
    if 0 <= c < tokens.len() && !is_flag(tokens[c]) {
        if many {
            capture_end(tokens, c + 1, many)
        } else {
            c + 1
        }
    } else {
        c
    }
}

/// The end of a captured run of values lies between where it starts and the
/// end of the tokens.
pub proof fn lemma_capture_end_bounds(tokens: Seq<Seq<char>>, c: int, many: bool)
    requires
        0 <= c,
    ensures
        c <= capture_end(tokens, c, many),
        c <= tokens.len() ==> capture_end(tokens, c, many) <= tokens.len(),
    decreases tokens.len() - c,
{
    if 0 <= c < tokens.len() && !is_flag(tokens[c]) && many {
        lemma_capture_end_bounds(tokens, c + 1, many);
    }
}

/// The value that a boolean flag given without a value takes.
pub open spec fn true_text() -> Seq<char> {
    seq!['t', 'r', 'u', 'e']
}

/// The values captured after the flag at `index` for field `f`, ending at `end`.
pub open spec fn captured_values(tokens: Seq<Seq<char>>, index: int, end: int, f: CommandArgumentField) -> Seq<
    Seq<char>,
> {
    let captured = tokens.subrange(index + 1, end);
    if f.kind == CommandArgumentKind::Boolean && captured.len() == 0 {
        seq![true_text()]
    } else {
        captured
    }
}

/// The arguments found from token `index` on, added to `acc`: each flag that
/// names a field of the schema takes the values after it.
pub open spec fn scan(
    tokens: Seq<Seq<char>>,
    fields: Seq<CommandArgumentField>,
    index: int,
    acc: Map<Seq<char>, Seq<Seq<char>>>,
) -> Map<Seq<char>, Seq<Seq<char>>>
    decreases tokens.len() - index,
{
    if index < 0 || index >= tokens.len() {
        acc
    } else if !is_flag(tokens[index]) {
        scan(tokens, fields, index + 1, acc)
    } else {
        let key = normalize_key(strip_flag(tokens[index]));
        match field_index(fields, key, fields.len() as int) {
            None => scan(tokens, fields, index + 1, acc),
            Some(j) => {
                let end = capture_end(tokens, index + 1, takes_many(fields[j]));
                proof {
                    lemma_capture_end_bounds(tokens, index + 1, takes_many(fields[j]));
                }
                scan(
                    tokens,
                    fields,
                    end,
                    add_values(acc, key, captured_values(tokens, index, end, fields[j])),
                )
            },
        }
    }
}

/// Whether a field of this shape takes the whole argument string as its value
/// when given without a flag.
pub open spec fn is_text_kind(k: CommandArgumentKind) -> bool {
    k == CommandArgumentKind::Text || k == CommandArgumentKind::LongText || k
        == CommandArgumentKind::CommandLine
}

/// The arguments in `raw` for the schema `fields`. Blank or missing input has
/// none. A schema of one text field with no flag in the input takes the whole
/// trimmed input as that field's value; otherwise each `--key` flag naming a
/// field takes the values after it.
pub open spec fn parse_spec(raw: Option<Seq<char>>, fields: Seq<CommandArgumentField>) -> Map<
    Seq<char>,
    Seq<Seq<char>>,
> {
    match raw {
        None => Map::empty(),
        Some(r) => if trim(r).len() == 0 {
            Map::empty()
        } else {
            let tokens = tokenize_spec(r);
            if fields.len() == 1 && !(exists|t: int| 0 <= t < tokens.len() && is_flag(#[trigger] tokens[t]))
                && is_text_kind(fields[0].kind) {
                Map::empty().insert(normalize_key(fields[0].key@), seq![trim(r)])
            } else {
                scan(tokens, fields, 0, Map::empty())
            }
        },
    }
}

proof fn lemma_strip_flag_skip(t: Seq<char>, i: int)
    requires
        0 <= i <= t.len(),
        i % 2 == 0,
        forall|j: int| 0 <= j < i ==> t[j] == '-',
        !(i + 2 <= t.len() && t[i] == '-' && t[i + 1] == '-'),
    ensures
        strip_flag(t) == t.subrange(i, t.len() as int),
    decreases i,
{
    if i > 0 {
        let u = t.subrange(2, t.len() as int);
        lemma_strip_flag_skip(u, i - 2);
        assert(u.subrange(i - 2, u.len() as int) =~= t.subrange(i, t.len() as int));
    } else {
        assert(t.subrange(0, t.len() as int) =~= t);
    }
}

/// `t` without every leading `--`.
fn strip_flag_exec(t: &str) -> (r: String)
    ensures
        r@ == strip_flag(t@),
{
    let n = t.unicode_len();
    let mut i: usize = 0;
    while i < n && i + 1 < n && t.get_char(i) == '-' && t.get_char(i + 1) == '-'
        invariant
            n == t@.len(),
            i <= n,
            i % 2 == 0,
            forall|j: int| 0 <= j < i ==> t@[j] == '-',
        decreases n - i,
    {
        i = i + 2;
    }
    proof {
        lemma_strip_flag_skip(t@, i as int);
    }
    owned(t.substring_char(i, n))
}

fn is_flag_exec(t: &str) -> (b: bool)
    ensures
        b == is_flag(t@),
{
    let n = t.unicode_len();
    let b = n >= 2 && t.get_char(0) == '-' && t.get_char(1) == '-';
    proof {
        if n >= 2 {
            if b {
                assert(t@.subrange(0, 2) =~= seq!['-', '-']);
            } else {
                assert(t@.subrange(0, 2) != seq!['-', '-']) by {
                    if t@[0] != '-' {
                        assert(t@.subrange(0, 2)[0] != seq!['-', '-'][0]);
                    } else {
                        assert(t@.subrange(0, 2)[1] != seq!['-', '-'][1]);
                    }
                }
            }
        }
    }
    b
}

/// The normalized keys of the fields, in order.
fn normalized_keys(fields: &[CommandArgumentField]) -> (r: Vec<String>)
    ensures
        r@.len() == fields@.len(),
        forall|j: int| 0 <= j < fields@.len() ==> #[trigger] r@[j]@ == normalize_key(fields@[j].key@),
{
    let mut r: Vec<String> = Vec::new();
    let mut j: usize = 0;
    while j < fields.len()
        invariant
            j <= fields@.len(),
            r@.len() == j,
            forall|t: int| 0 <= t < j ==> #[trigger] r@[t]@ == normalize_key(fields@[t].key@),
        decreases fields@.len() - j,
    {
        r.push(normalize_field_key(fields[j].key.as_str()));
        j = j + 1;
    }
    r
}

fn find_field(norm: &Vec<String>, fields: &[CommandArgumentField], key: &str) -> (r: Option<usize>)
    requires
        norm@.len() == fields@.len(),
        forall|j: int| 0 <= j < fields@.len() ==> #[trigger] norm@[j]@ == normalize_key(fields@[j].key@),
    ensures
        match r {
            Some(j) => j < fields@.len() && field_index(fields@, key@, fields@.len() as int) == Some(
                j as int,
            ),
            None => field_index(fields@, key@, fields@.len() as int) is None,
        },
{
    let mut j: usize = fields.len();
    while j > 0
        invariant
            j <= fields@.len(),
            norm@.len() == fields@.len(),
            forall|t: int| 0 <= t < fields@.len() ==> #[trigger] norm@[t]@ == normalize_key(fields@[t].key@),
            field_index(fields@, key@, fields@.len() as int) == field_index(fields@, key@, j as int),
        decreases j,
    {
        if str_eq(norm[j - 1].as_str(), key) {
            return Some(j - 1);
        }
        j = j - 1;
    }
    None
}

/// The arguments in `raw_arguments` for the argument schema `fields`.
pub fn parse(raw_arguments: Option<&str>, fields: &[CommandArgumentField]) -> (r: ArgumentMap)
    ensures
        r.wf(),
        r.view() == parse_spec(
            match raw_arguments {
                Some(a) => Some(a@),
                None => None,
            },
            fields@,
        ),
{
    let mut values = ArgumentMap::new();
    let raw = match raw_arguments {
        Some(a) => a,
        None => return values,
    };
    let trimmed = trim_str(raw);
    if trimmed.as_str().unicode_len() == 0 {
        return values;
    }
    let norm = normalized_keys(fields);
    let tokens = tokenize(raw);
    let ghost tv = tokens.deep_view();
    let mut any_flag = false;
    let mut t: usize = 0;
    while t < tokens.len()
        invariant
            t <= tokens@.len(),
            tv == tokens.deep_view(),
            any_flag == exists|u: int| 0 <= u < t && is_flag(#[trigger] tv[u]),
        decreases tokens@.len() - t,
    {
        proof {
            assert(tokens@[t as int]@ == tv[t as int]);
        }
        if is_flag_exec(tokens[t].as_str()) {
            any_flag = true;
        }
        t = t + 1;
    }
    if fields.len() == 1 && !any_flag && (fields[0].kind == CommandArgumentKind::Text || fields[0].kind
        == CommandArgumentKind::LongText || fields[0].kind == CommandArgumentKind::CommandLine) {
        let mut v: Vec<String> = Vec::new();
        v.push(trimmed);
        let k = normalize_field_key(fields[0].key.as_str());
        let ghost v0 = v.deep_view();
        values.extend(k.as_str(), v);
        proof {
            assert(v0 =~= seq![trim(raw@)]);
            assert(held_values(Map::<Seq<char>, Seq<Seq<char>>>::empty(), k@) + v0 =~= v0);
        }
        return values;
    }
    let n = tokens.len();
    let mut index: usize = 0;
    while index < n
        invariant
            n == tokens@.len(),
            tv == tokens.deep_view(),
            index <= n,
            values.wf(),
            norm@.len() == fields@.len(),
            forall|j: int| 0 <= j < fields@.len() ==> #[trigger] norm@[j]@ == normalize_key(fields@[j].key@),
            scan(tv, fields@, index as int, values.view()) == scan(tv, fields@, 0, Map::empty()),
        decreases n - index,
    {
        let token = tokens[index].as_str();
        if !is_flag_exec(token) {
            index = index + 1;
            continue;
        }
        let stripped = strip_flag_exec(token);
        let key = normalize_field_key(stripped.as_str());
        let j = match find_field(&norm, fields, key.as_str()) {
            Some(j) => j,
            None => {
                index = index + 1;
                continue;
            },
        };
        let many = fields[j].repeatable || fields[j].kind == CommandArgumentKind::GlobList;
        let mut captured: Vec<String> = Vec::new();
        let mut cursor = index + 1;
        let mut go = true;
        proof {
            assert(captured.deep_view() =~= tv.subrange(index + 1, cursor as int));
        }
        while go && cursor < n && !is_flag_exec(tokens[cursor].as_str())
            invariant
                n == tokens@.len(),
                tv == tokens.deep_view(),
                index < n,
                index + 1 <= cursor <= n,
                many == takes_many(fields@[j as int]),
                go ==> capture_end(tv, index + 1, many) == capture_end(tv, cursor as int, many),
                !go ==> cursor == capture_end(tv, index + 1, many),
                captured.deep_view() == tv.subrange(index + 1, cursor as int),
            decreases n - cursor,
        {
            let ghost c0 = captured.deep_view();
            captured.push(tokens[cursor].clone());
            proof {
                assert(captured.deep_view() =~= c0.push(tv[cursor as int]));
                assert(tv.subrange(index + 1, cursor + 1) =~= tv.subrange(index + 1, cursor as int).push(
                    tv[cursor as int],
                ));
            }
            cursor = cursor + 1;
            if !many {
                go = false;
            }
        }
        let ghost end = cursor as int;
        proof {
            assert(end == capture_end(tv, index + 1, many));
        }
        if fields[j].kind == CommandArgumentKind::Boolean && captured.len() == 0 {
            let ghost c0 = captured.deep_view();
            let mut word = String::new();
            push_char(&mut word, 't');
            push_char(&mut word, 'r');
            push_char(&mut word, 'u');
            push_char(&mut word, 'e');
            captured.push(word);
            proof {
                assert(word@ =~= true_text());
                assert(captured.deep_view() =~= c0.push(word@));
                assert(captured.deep_view() =~= seq![true_text()]);
            }
        }
        values.extend(key.as_str(), captured);
        index = cursor;
    }
    values
}


/// The values given for each field, in the order of the schema.
pub open spec fn flatten_spec(fields: Seq<CommandArgumentField>, m: Map<Seq<char>, Seq<Seq<char>>>, j: int) -> Seq<
    Seq<char>,
>
    decreases j,
{
    if j <= 0 {
        Seq::empty()
    } else {
        flatten_spec(fields, m, j - 1) + held_values(m, normalize_key(fields[j - 1].key@))
    }
}

/// Appends copies of `vals` to `out`.
fn append_strings(out: &mut Vec<String>, vals: &Vec<String>)
    ensures
        final(out).deep_view() == old(out).deep_view() + vals.deep_view(),
{
    let ghost start = out.deep_view();
    let mut i: usize = 0;
    while i < vals.len()
        invariant
            i <= vals@.len(),
            out.deep_view() == start + vals.deep_view().subrange(0, i as int),
        decreases vals@.len() - i,
    {
        let ghost o0 = out.deep_view();
        out.push(vals[i].clone());
        proof {
            assert(out.deep_view() =~= o0.push(vals[i as int]@));
            assert(start + vals.deep_view().subrange(0, i + 1) =~= (start + vals.deep_view().subrange(
                0,
                i as int,
            )).push(vals[i as int]@));
        }
        i = i + 1;
    }
    proof {
        assert(vals.deep_view().subrange(0, vals@.len() as int) =~= vals.deep_view());
    }
}

/// Every value given for any field of the schema, field by field in schema
/// order.
pub fn flatten(fields: &[CommandArgumentField], arguments: &ArgumentMap) -> (r: Vec<String>)
    requires
        arguments.wf(),
    ensures
        r.deep_view() == flatten_spec(fields@, arguments.view(), fields@.len() as int),
{
    let mut r: Vec<String> = Vec::new();
    let mut j: usize = 0;
    proof {
        assert(r.deep_view() =~= Seq::<Seq<char>>::empty());
    }
    while j < fields.len()
        invariant
            j <= fields@.len(),
            arguments.wf(),
            r.deep_view() == flatten_spec(fields@, arguments.view(), j as int),
        decreases fields@.len() - j,
    {
        let k = normalize_field_key(fields[j].key.as_str());
        match arguments.get(k.as_str()) {
            Some(vals) => append_strings(&mut r, &vals),
            None => {
                assert(r.deep_view() + Seq::<Seq<char>>::empty() =~= r.deep_view());
            },
        }
        j = j + 1;
    }
    r
}

/// The values worth writing back: each trimmed, blank ones dropped, and each
/// written as one shell-style argument.
pub open spec fn quoted_values(vs: Seq<Seq<char>>) -> Seq<Seq<char>>
    decreases vs.len(),
{
    if vs.len() == 0 {
        Seq::empty()
    } else {
        let rest = quoted_values(vs.drop_last());
        let t = trim(vs.last());
        if t.len() == 0 {
            rest
        } else {
            rest.push(shell_quote_spec(t))
        }
    }
}

/// The `--key values` parts written back for the first `j` fields of the
/// schema that have non-blank values.
pub open spec fn hydrate_parts(fields: Seq<CommandArgumentField>, m: Map<Seq<char>, Seq<Seq<char>>>, j: int) -> Seq<
    Seq<char>,
>
    decreases j,
{
    if j <= 0 {
        Seq::empty()
    } else {
        let rest = hydrate_parts(fields, m, j - 1);
        let f = fields[j - 1];
        let q = quoted_values(held_values(m, normalize_key(f.key@)));
        if q.len() == 0 {
            rest
        } else {
            rest.push(seq!['-', '-'] + f.key@ + seq![' '] + join_spec(q, seq![' ']))
        }
    }
}

/// The values worth writing back, as in `quoted_values`.
fn quote_values(vals: &Vec<String>) -> (r: Vec<String>)
    ensures
        r.deep_view() == quoted_values(vals.deep_view()),
{
    let mut r: Vec<String> = Vec::new();
    let mut i: usize = 0;
    proof {
        assert(vals.deep_view().subrange(0, 0) =~= Seq::<Seq<char>>::empty());
        assert(r.deep_view() =~= Seq::<Seq<char>>::empty());
    }
    while i < vals.len()
        invariant
            i <= vals@.len(),
            r.deep_view() == quoted_values(vals.deep_view().subrange(0, i as int)),
        decreases vals@.len() - i,
    {
        let ghost r0 = r.deep_view();
        proof {
            assert(vals.deep_view().subrange(0, i + 1).drop_last() =~= vals.deep_view().subrange(
                0,
                i as int,
            ));
        }
        let t = trim_str(vals[i].as_str());
        if t.as_str().unicode_len() > 0 {
            r.push(shell_quote(t.as_str()));
            proof {
                assert(r.deep_view() =~= r0.push(shell_quote_spec(t@)));
            }
        }
        i = i + 1;
    }
    proof {
        assert(vals.deep_view().subrange(0, vals@.len() as int) =~= vals.deep_view());
    }
    r
}

/// The arguments in `raw_arguments` for the schema `fields`, together with the
/// argument string written back from them: `--key value...` for each field of
/// the schema that has non-blank values, in schema order.
pub fn hydrate(raw_arguments: &str, fields: &[CommandArgumentField]) -> (r: (ArgumentMap, String))
    ensures
        r.0.wf(),
        r.0.view() == parse_spec(Some(raw_arguments@), fields@),
        r.1@ == join_spec(hydrate_parts(fields@, r.0.view(), fields@.len() as int), seq![' ']),
{
    let parsed = parse(Some(raw_arguments), fields);
    let mut parts: Vec<String> = Vec::new();
    let mut space = String::new();
    push_char(&mut space, ' ');
    let mut j: usize = 0;
    proof {
        assert(parts.deep_view() =~= Seq::<Seq<char>>::empty());
    }
    while j < fields.len()
        invariant
            j <= fields@.len(),
            parsed.wf(),
            space@ == seq![' '],
            parts.deep_view() == hydrate_parts(fields@, parsed.view(), j as int),
        decreases fields@.len() - j,
    {
        let k = normalize_field_key(fields[j].key.as_str());
        let vals = match parsed.get(k.as_str()) {
            Some(v) => v,
            None => Vec::new(),
        };
        proof {
            if !parsed.view().dom().contains(k@) {
                assert(vals.deep_view() =~= Seq::<Seq<char>>::empty());
            }
        }
        let quoted = quote_values(&vals);
        if quoted.len() > 0 {
            let mut part = String::new();
            push_char(&mut part, '-');
            push_char(&mut part, '-');
            part.append(fields[j].key.as_str());
            push_char(&mut part, ' ');
            let joined = join(&quoted, space.as_str());
            part.append(joined.as_str());
            let ghost p0 = parts.deep_view();
            let ghost pv = part@;
            proof {
                assert(pv =~= seq!['-', '-'] + fields@[j as int].key@ + seq![' '] + join_spec(
                    quoted.deep_view(),
                    seq![' '],
                ));
            }
            parts.push(part);
            proof {
                assert(parts.deep_view() =~= p0.push(pv));
                assert(parts.deep_view() =~= p0.push(
                    seq!['-', '-'] + fields@[j as int].key@ + seq![' '] + join_spec(
                        quoted.deep_view(),
                        seq![' '],
                    ),
                ));
            }
        }
        j = j + 1;
    }
    let line = join(&parts, space.as_str());
    (parsed, line)
}

/// Whether every value is blank; true of no values at all.
pub open spec fn all_blank(vs: Seq<Seq<char>>) -> bool {
    forall|i: int| 0 <= i < vs.len() ==> trim(#[trigger] vs[i]).len() == 0
}

/// The required fields among the first `j` of the schema that have no
/// non-blank value.
pub open spec fn missing_spec(fields: Seq<CommandArgumentField>, m: Map<Seq<char>, Seq<Seq<char>>>, j: int) -> Seq<
    CommandArgumentField,
>
    decreases j,
{
    if j <= 0 {
        Seq::empty()
    } else {
        let rest = missing_spec(fields, m, j - 1);
        let f = fields[j - 1];
        if f.required && all_blank(held_values(m, normalize_key(f.key@))) {
            rest.push(f)
        } else {
            rest
        }
    }
}

/// The required fields of the schema that were given no non-blank value, in
/// schema order.
pub fn missing_required(fields: &[CommandArgumentField], parsed_arguments: &ArgumentMap) -> (r: Vec<
    CommandArgumentField,
>)
    requires
        parsed_arguments.wf(),
    ensures
        r@.len() == missing_spec(fields@, parsed_arguments.view(), fields@.len() as int).len(),
        forall|k: int|
            0 <= k < r@.len() ==> same_field(
                #[trigger] r@[k],
                missing_spec(fields@, parsed_arguments.view(), fields@.len() as int)[k],
            ),
{
    let mut r: Vec<CommandArgumentField> = Vec::new();
    let mut j: usize = 0;
    while j < fields.len()
        invariant
            j <= fields@.len(),
            parsed_arguments.wf(),
            r@.len() == missing_spec(fields@, parsed_arguments.view(), j as int).len(),
            forall|k: int|
                0 <= k < r@.len() ==> same_field(
                    #[trigger] r@[k],
                    missing_spec(fields@, parsed_arguments.view(), j as int)[k],
                ),
        decreases fields@.len() - j,
    {
        if fields[j].required {
            let k = normalize_field_key(fields[j].key.as_str());
            let vals = match parsed_arguments.get(k.as_str()) {
                Some(v) => v,
                None => Vec::new(),
            };
            let ghost vv = vals.deep_view();
            proof {
                if !parsed_arguments.view().dom().contains(k@) {
                    assert(vv =~= Seq::<Seq<char>>::empty());
                }
            }
            let mut blank = true;
            let mut i: usize = 0;
            while i < vals.len()
                invariant
                    i <= vals@.len(),
                    vv == vals.deep_view(),
                    blank == forall|t: int| 0 <= t < i ==> trim(#[trigger] vv[t]).len() == 0,
                decreases vals@.len() - i,
            {
                proof {
                    assert(vals@[i as int]@ == vv[i as int]);
                }
                let t = trim_str(vals[i].as_str());
                if t.as_str().unicode_len() > 0 {
                    blank = false;
                }
                i = i + 1;
            }
            if blank {
                r.push(fields[j].clone());
            }
        }
        j = j + 1;
    }
    r
}

} // verus!
