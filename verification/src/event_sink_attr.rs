//! The attribute through which a struct asks for `EventSink` impls:
//! `#[event_sink(event = E1, event = E2)]`. Taking the attributes off a
//! struct, checking their parameters and reading out the event names is done
//! here; writing the impls is left to the macro that calls it.

use vstd::prelude::*;

verus! {

/// What follows an attribute's path.
pub enum AttrArgs {
    /// Nothing, as in `#[event_sink]`.
    Empty,
    /// One delimited group, as in `#[event_sink(..)]`: the text between its
    /// delimiters.
    Group(String),
    /// Anything else, as in `#[event_sink = ".."]`.
    Other,
}

/// An attribute on the struct the sink is derived for: whether its path
/// starts with `::`, the segments of its path, and what follows the path.
pub struct AttrModel {
    pub leading_colon: bool,
    pub path: Vec<String>,
    pub args: AttrArgs,
}

/// Why the parameters of an `event_sink` attribute were refused.
#[derive(Clone, Copy, Debug, PartialEq, Eq, Structural)]
pub enum ParamError {
    /// The arguments are not a comma-separated list of `name` or
    /// `name = Ident`.
    Malformed,
    /// A parameter other than `event`.
    UnexpectedParameter,
    /// An `event` parameter without a name.
    EventNameExpected,
}

/// The attribute's path is the single identifier `name`.
pub open spec fn is_named(attr: AttrModel, name: Seq<char>) -> bool {
    &&& !attr.leading_colon
    &&& attr.path@.len() == 1
    &&& attr.path@[0]@ == name
}

/// Whitespace between tokens.
pub open spec fn is_space(c: char) -> bool {
    c == ' ' || c == '\t' || c == '\n' || c == '\r' || c == '\u{0B}' || c == '\u{0C}' || c == '\u{85}'
        || c == '\u{200E}' || c == '\u{200F}' || c == '\u{2028}' || c == '\u{2029}'
}

/// Whether a character has the Unicode property XID_Start.
pub uninterp spec fn xid_start(c: char) -> bool;

/// Whether a character has the Unicode property XID_Continue.
pub uninterp spec fn xid_continue(c: char) -> bool;

/// Calls `unicode_ident::is_xid_start`, the Unicode property XID_Start of
/// the character; a function of the character alone.
#[verifier::external_body]
fn is_xid_start(c: char) -> (start: bool)
    ensures
        start == xid_start(c),
{
    unicode_ident::is_xid_start(c)
}

/// Calls `unicode_ident::is_xid_continue`, the Unicode property
/// XID_Continue of the character; a function of the character alone.
#[verifier::external_body]
fn is_xid_continue(c: char) -> (cont: bool)
    ensures
        cont == xid_continue(c),
{
    unicode_ident::is_xid_continue(c)
}

/// A character that can start an identifier.
pub open spec fn is_ident_start(c: char) -> bool {
    c == '_' || xid_start(c)
}

/// A character that can continue an identifier.
pub open spec fn is_ident_char(c: char) -> bool {
    xid_continue(c)
}

/// `s` holds `p` from position `i` on.
pub open spec fn starts_with_at(s: Seq<char>, i: int, p: Seq<char>) -> bool {
    &&& 0 <= i
    &&& i + p.len() <= s.len()
    &&& s.subrange(i, i + p.len()) == p
}

/// A string, byte or raw literal starts at `i`: its prefix is no identifier.
pub open spec fn literal_prefix_at(s: Seq<char>, i: int) -> bool {
    starts_with_at(s, i, "r\""@) || starts_with_at(s, i, "r#\""@) || starts_with_at(s, i, "r##"@)
        || starts_with_at(s, i, "b\""@) || starts_with_at(s, i, "b'"@) || starts_with_at(s, i, "br\""@)
        || starts_with_at(s, i, "br#"@) || starts_with_at(s, i, "c\""@) || starts_with_at(s, i, "cr\""@)
        || starts_with_at(s, i, "cr#"@)
}

/// A raw identifier, `r#name`, starts at `i`.
pub open spec fn raw_at(s: Seq<char>, i: int) -> bool {
    0 <= i && i + 1 < s.len() && s[i] == 'r' && s[i + 1] == '#'
}

/// Where the name of the identifier at `i` starts: after `r#` for a raw one.
pub open spec fn body_start(s: Seq<char>, i: int) -> int {
    if raw_at(s, i) {
        i + 2
    } else {
        i
    }
}

/// Where the identifier at `i` ends.
pub open spec fn ident_end(s: Seq<char>, i: int) -> int {
    word_end(s, body_start(s, i))
}

/// The names that cannot follow `r#`.
pub open spec fn is_raw_forbidden(w: Seq<char>) -> bool {
    w == "_"@ || w == "super"@ || w == "self"@ || w == "Self"@ || w == "crate"@
}

/// The first position from `i` on that is not whitespace.
pub open spec fn skip_space(s: Seq<char>, i: int) -> int
    decreases s.len() - i,
{
    if 0 <= i < s.len() && is_space(s[i]) {
        skip_space(s, i + 1)
    } else {
        i
    }
}

/// The end of the run of identifier characters that starts at `i`.
pub open spec fn word_end(s: Seq<char>, i: int) -> int
    decreases s.len() - i,
{
    if 0 <= i < s.len() && is_ident_char(s[i]) {
        word_end(s, i + 1)
    } else {
        i
    }
}

/// The words that are not identifiers: `_` and the keywords.
pub open spec fn is_keyword(w: Seq<char>) -> bool {
    w == "_"@ ||
    w == "abstract"@ ||
    w == "as"@ ||
    w == "async"@ ||
    w == "await"@ ||
    w == "become"@ ||
    w == "box"@ ||
    w == "break"@ ||
    w == "const"@ ||
    w == "continue"@ ||
    w == "crate"@ ||
    w == "do"@ ||
    w == "dyn"@ ||
    w == "else"@ ||
    w == "enum"@ ||
    w == "extern"@ ||
    w == "false"@ ||
    w == "final"@ ||
    w == "fn"@ ||
    w == "for"@ ||
    w == "if"@ ||
    w == "impl"@ ||
    w == "in"@ ||
    w == "let"@ ||
    w == "loop"@ ||
    w == "macro"@ ||
    w == "match"@ ||
    w == "mod"@ ||
    w == "move"@ ||
    w == "mut"@ ||
    w == "override"@ ||
    w == "priv"@ ||
    w == "pub"@ ||
    w == "ref"@ ||
    w == "return"@ ||
    w == "Self"@ ||
    w == "self"@ ||
    w == "static"@ ||
    w == "struct"@ ||
    w == "super"@ ||
    w == "trait"@ ||
    w == "true"@ ||
    w == "try"@ ||
    w == "type"@ ||
    w == "typeof"@ ||
    w == "unsafe"@ ||
    w == "unsized"@ ||
    w == "use"@ ||
    w == "virtual"@ ||
    w == "where"@ ||
    w == "while"@ ||
    w == "yield"@
}

/// An identifier starts at `i`: a name that is no keyword, or `r#` and a
/// name that may follow it.
pub open spec fn ident_at(s: Seq<char>, i: int) -> bool {
    let b = body_start(s, i);
    &&& 0 <= i < s.len()
    &&& !literal_prefix_at(s, i)
    &&& b < s.len()
    &&& is_ident_start(s[b])
    &&& if raw_at(s, i) {
        !is_raw_forbidden(s.subrange(b, ident_end(s, i)))
    } else {
        !is_keyword(s.subrange(b, ident_end(s, i)))
    }
}

pub proof fn lemma_skip_space_bounds(s: Seq<char>, i: int)
    ensures
        skip_space(s, i) >= i,
        0 <= i <= s.len() ==> skip_space(s, i) <= s.len(),
    decreases s.len() - i,
{
    if 0 <= i < s.len() && is_space(s[i]) {
        lemma_skip_space_bounds(s, i + 1);
    }
}

pub proof fn lemma_word_end_bounds(s: Seq<char>, i: int)
    ensures
        word_end(s, i) >= i,
        0 <= i <= s.len() ==> word_end(s, i) <= s.len(),
    decreases s.len() - i,
{
    if 0 <= i < s.len() && is_ident_char(s[i]) {
        lemma_word_end_bounds(s, i + 1);
    }
}

/// The parameters from position `i` on, after those in `acc`: each is
/// `event`, with the name after `=` if there is one; parameters are
/// separated by commas, with none after the last.
pub open spec fn parse_params_from(s: Seq<char>, i: int, acc: Seq<Option<Seq<char>>>) -> Result<Seq<Option<Seq<char>>>, ParamError>
    decreases s.len() - i,
{
    let n0 = skip_space(s, i);
    if !ident_at(s, n0) {
        Err(ParamError::Malformed)
    } else if s.subrange(n0, ident_end(s, n0)) != "event"@ {
        Err(ParamError::UnexpectedParameter)
    } else {
        let n1 = ident_end(s, n0);
        let n2 = skip_space(s, n1);
        let has_value = n2 < s.len() && s[n2] == '=';
        let v0 = skip_space(s, n2 + 1);
        if has_value && !ident_at(s, v0) {
            Err(ParamError::Malformed)
        } else {
            let n3 = if has_value { ident_end(s, v0) } else { n2 };
            let value = if has_value { Some(s.subrange(v0, n3)) } else { None };
            let n4 = skip_space(s, n3);
            if n4 >= s.len() {
                Ok(acc.push(value))
            } else if s[n4] == ',' {
                proof {
                    lemma_skip_space_bounds(s, i);
                    lemma_word_end_bounds(s, body_start(s, n0));
                    lemma_skip_space_bounds(s, n1);
                    lemma_skip_space_bounds(s, n2 + 1);
                    lemma_word_end_bounds(s, body_start(s, v0));
                    lemma_skip_space_bounds(s, n3);
                }
                parse_params_from(s, n4 + 1, acc.push(value))
            } else {
                Err(ParamError::Malformed)
            }
        }
    }
}

/// The parameters of one attribute: none when it has no arguments.
pub open spec fn attr_params(attr: AttrModel) -> Result<Seq<Option<Seq<char>>>, ParamError> {
    match attr.args {
        AttrArgs::Empty => Ok(Seq::empty()),
        AttrArgs::Group(text) => parse_params_from(text@, 0, Seq::empty()),
        AttrArgs::Other => Err(ParamError::Malformed),
    }
}

/// The parameters of all attributes named `name`, in order; the first
/// refusal, if any.
pub open spec fn collect_params(attrs: Seq<AttrModel>, name: Seq<char>) -> Result<Seq<Option<Seq<char>>>, ParamError>
    decreases attrs.len(),
{
    if attrs.len() == 0 {
        Ok(Seq::empty())
    } else {
        match collect_params(attrs.drop_last(), name) {
            Err(e) => Err(e),
            Ok(p) => if is_named(attrs.last(), name) {
                match attr_params(attrs.last()) {
                    Err(e) => Err(e),
                    Ok(q) => Ok(p + q),
                }
            } else {
                Ok(p)
            },
        }
    }
}

/// The event names of the parameters, or the refusal of one without a name.
pub open spec fn event_names(params: Seq<Option<Seq<char>>>) -> Result<Seq<Seq<char>>, ParamError>
    decreases params.len(),
{
    if params.len() == 0 {
        Ok(Seq::empty())
    } else {
        match event_names(params.drop_last()) {
            Err(e) => Err(e),
            Ok(v) => match params.last() {
                None => Err(ParamError::EventNameExpected),
                Some(n) => Ok(v.push(n)),
            },
        }
    }
}

/// What taking the attributes named `name` gives: nothing when there are
/// none; else the names of the events they ask for, or the first refusal.
/// A malformed list or an unknown parameter anywhere is reported before an
/// `event` without a name.
pub open spec fn spec_take_params(name: Seq<char>, attrs: Seq<AttrModel>) -> Result<Option<Seq<Seq<char>>>, ParamError> {
    if !(exists|i: int| 0 <= i < attrs.len() && is_named(#[trigger] attrs[i], name)) {
        Ok(None)
    } else {
        match collect_params(attrs, name) {
            Err(e) => Err(e),
            Ok(params) => match event_names(params) {
                Err(e) => Err(e),
                Ok(names) => Ok(Some(names)),
            },
        }
    }
}

/// The events that the `event_sink` attributes ask for.
pub open spec fn spec_event_sink_targets(attrs: Seq<AttrModel>) -> Result<Seq<Seq<char>>, ParamError> {
    match spec_take_params("event_sink"@, attrs) {
        Err(e) => Err(e),
        Ok(None) => Ok(Seq::empty()),
        Ok(Some(names)) => Ok(names),
    }
}

/// The text of each string.
pub open spec fn strings_view(v: Seq<String>) -> Seq<Seq<char>> {
    v.map_values(|s: String| s@)
}

/// The text of a name, if there is one.
pub open spec fn optional_string_view(o: Option<String>) -> Option<Seq<char>> {
    match o {
        Some(s) => Some(s@),
        None => None,
    }
}

/// The text of each name, where there is one.
pub open spec fn optional_strings_view(v: Seq<Option<String>>) -> Seq<Option<Seq<char>>> {
    v.map_values(|o: Option<String>| optional_string_view(o))
}

/// The result of `take_params`, as text.
pub open spec fn taken_view(r: Result<Option<Vec<String>>, ParamError>) -> Result<Option<Seq<Seq<char>>>, ParamError> {
    match r {
        Err(e) => Err(e),
        Ok(None) => Ok(None),
        Ok(Some(v)) => Ok(Some(strings_view(v@))),
    }
}

/// The result of `event_sink_targets`, as text.
pub open spec fn targets_view(r: Result<Vec<String>, ParamError>) -> Result<Seq<Seq<char>>, ParamError> {
    match r {
        Err(e) => Err(e),
        Ok(v) => Ok(strings_view(v@)),
    }
}

fn word_is(w: &String, literal: &str) -> (same: bool)
    ensures
        same == (w@ == literal@),
{
    let expected = String::from_str(literal);
    *w == expected
}

fn is_keyword_word(w: &String) -> (keyword: bool)
    ensures
        keyword == is_keyword(w@),
{
    word_is(w, "_") ||
    word_is(w, "abstract") ||
    word_is(w, "as") ||
    word_is(w, "async") ||
    word_is(w, "await") ||
    word_is(w, "become") ||
    word_is(w, "box") ||
    word_is(w, "break") ||
    word_is(w, "const") ||
    word_is(w, "continue") ||
    word_is(w, "crate") ||
    word_is(w, "do") ||
    word_is(w, "dyn") ||
    word_is(w, "else") ||
    word_is(w, "enum") ||
    word_is(w, "extern") ||
    word_is(w, "false") ||
    word_is(w, "final") ||
    word_is(w, "fn") ||
    word_is(w, "for") ||
    word_is(w, "if") ||
    word_is(w, "impl") ||
    word_is(w, "in") ||
    word_is(w, "let") ||
    word_is(w, "loop") ||
    word_is(w, "macro") ||
    word_is(w, "match") ||
    word_is(w, "mod") ||
    word_is(w, "move") ||
    word_is(w, "mut") ||
    word_is(w, "override") ||
    word_is(w, "priv") ||
    word_is(w, "pub") ||
    word_is(w, "ref") ||
    word_is(w, "return") ||
    word_is(w, "Self") ||
    word_is(w, "self") ||
    word_is(w, "static") ||
    word_is(w, "struct") ||
    word_is(w, "super") ||
    word_is(w, "trait") ||
    word_is(w, "true") ||
    word_is(w, "try") ||
    word_is(w, "type") ||
    word_is(w, "typeof") ||
    word_is(w, "unsafe") ||
    word_is(w, "unsized") ||
    word_is(w, "use") ||
    word_is(w, "virtual") ||
    word_is(w, "where") ||
    word_is(w, "while") ||
    word_is(w, "yield")
}

fn is_space_char(c: char) -> (space: bool)
    ensures
        space == is_space(c),
{
    c == ' ' || c == '\t' || c == '\n' || c == '\r' || c == '\u{0B}' || c == '\u{0C}' || c == '\u{85}'
        || c == '\u{200E}' || c == '\u{200F}' || c == '\u{2028}' || c == '\u{2029}'
}

fn is_ident_start_char(c: char) -> (start: bool)
    ensures
        start == is_ident_start(c),
{
    c == '_' || is_xid_start(c)
}

fn is_ident_char_char(c: char) -> (ident: bool)
    ensures
        ident == is_ident_char(c),
{
    is_xid_continue(c)
}

fn starts_with_in(text: &str, n: usize, i: usize, prefix: &str) -> (found: bool)
    requires
        n == text@.len(),
        i <= n,
    ensures
        found == starts_with_at(text@, i as int, prefix@),
{
    let m = prefix.unicode_len();
    if m > n - i {
        return false;
    }
    let mut k: usize = 0;
    while k < m
        invariant
            n == text@.len(),
            m == prefix@.len(),
            i + m <= n,
            0 <= k <= m,
            forall|j: int| 0 <= j < k ==> text@[i + j] == prefix@[j],
        decreases m - k,
    {
        if text.get_char(i + k) != prefix.get_char(k) {
            assert(text@.subrange(i as int, i + m)[k as int] != prefix@[k as int]);
            return false;
        }
        k = k + 1;
    }
    assert(text@.subrange(i as int, i + m) =~= prefix@);
    true
}

fn literal_prefix_in(text: &str, n: usize, i: usize) -> (found: bool)
    requires
        n == text@.len(),
        i <= n,
    ensures
        found == literal_prefix_at(text@, i as int),
{
    starts_with_in(text, n, i, "r\"") || starts_with_in(text, n, i, "r#\"") || starts_with_in(text, n, i, "r##")
        || starts_with_in(text, n, i, "b\"") || starts_with_in(text, n, i, "b'") || starts_with_in(text, n, i, "br\"")
        || starts_with_in(text, n, i, "br#") || starts_with_in(text, n, i, "c\"") || starts_with_in(text, n, i, "cr\"")
        || starts_with_in(text, n, i, "cr#")
}

fn is_raw_forbidden_word(w: &String) -> (forbidden: bool)
    ensures
        forbidden == is_raw_forbidden(w@),
{
    word_is(w, "_") || word_is(w, "super") || word_is(w, "self") || word_is(w, "Self") || word_is(w, "crate")
}

fn skip_space_in(text: &str, n: usize, i: usize) -> (j: usize)
    requires
        n == text@.len(),
        i <= n,
    ensures
        j == skip_space(text@, i as int),
        i <= j <= n,
{
    let mut j = i;
    loop
        invariant
            n == text@.len(),
            i <= j <= n,
            skip_space(text@, j as int) == skip_space(text@, i as int),
        decreases n - j,
    {
        if j >= n {
            return j;
        }
        if !is_space_char(text.get_char(j)) {
            return j;
        }
        j = j + 1;
    }
}

fn word_end_in(text: &str, n: usize, i: usize) -> (j: usize)
    requires
        n == text@.len(),
        i <= n,
    ensures
        j == word_end(text@, i as int),
        i <= j <= n,
{
    let mut j = i;
    loop
        invariant
            n == text@.len(),
            i <= j <= n,
            word_end(text@, j as int) == word_end(text@, i as int),
        decreases n - j,
    {
        if j >= n {
            return j;
        }
        if !is_ident_char_char(text.get_char(j)) {
            return j;
        }
        j = j + 1;
    }
}

/// The identifier that starts at `i`, with its end, if one does.
fn ident_in(text: &str, n: usize, i: usize) -> (found: Option<(usize, String)>)
    requires
        n == text@.len(),
        i <= n,
    ensures
        found is Some <==> ident_at(text@, i as int),
        found matches Some((end, word)) ==> end == ident_end(text@, i as int) && word@ == text@.subrange(i as int, end as int)
            && i <= end <= n,
{
    if i >= n {
        return None;
    }
    if literal_prefix_in(text, n, i) {
        return None;
    }
    let raw = i + 1 < n && text.get_char(i) == 'r' && text.get_char(i + 1) == '#';
    let start = if raw { i + 2 } else { i };
    assert(start == body_start(text@, i as int));
    if start >= n {
        return None;
    }
    if !is_ident_start_char(text.get_char(start)) {
        return None;
    }
    let end = word_end_in(text, n, start);
    let body = text.substring_char(start, end).to_owned();
    let refused = if raw { is_raw_forbidden_word(&body) } else { is_keyword_word(&body) };
    if refused {
        None
    } else {
        let word = text.substring_char(i, end).to_owned();
        Some((end, word))
    }
}

/// The parameters of an attribute's arguments, as the grammar of
/// `parse_params_from` reads them.
pub fn parse_args(text: &str) -> (params: Result<Vec<Option<String>>, ParamError>)
    ensures
        match params {
            Ok(v) => parse_params_from(text@, 0, Seq::empty()) == Ok::<Seq<Option<Seq<char>>>, ParamError>(optional_strings_view(v@)),
            Err(e) => parse_params_from(text@, 0, Seq::empty()) == Err::<Seq<Option<Seq<char>>>, ParamError>(e),
        },
{
    let n = text.unicode_len();
    let mut i: usize = 0;
    let mut acc: Vec<Option<String>> = Vec::new();
    assert(optional_strings_view(acc@) =~= Seq::<Option<Seq<char>>>::empty());
    loop
        invariant
            n == text@.len(),
            i <= n,
            parse_params_from(text@, i as int, optional_strings_view(acc@)) == parse_params_from(text@, 0, Seq::empty()),
        decreases n - i,
    {
        let ghost s = text@;
        let ghost accv = optional_strings_view(acc@);
        let n0 = skip_space_in(text, n, i);
        let (n1, name) = match ident_in(text, n, n0) {
            None => return Err(ParamError::Malformed),
            Some(found) => found,
        };
        if !word_is(&name, "event") {
            return Err(ParamError::UnexpectedParameter);
        }
        let n2 = skip_space_in(text, n, n1);
        let has_value = n2 < n && text.get_char(n2) == '=';
        let mut value: Option<String> = None;
        let mut n3 = n2;
        if has_value {
            let v0 = skip_space_in(text, n, n2 + 1);
            match ident_in(text, n, v0) {
                None => return Err(ParamError::Malformed),
                Some((end, word)) => {
                    value = Some(word);
                    n3 = end;
                },
            }
        }
        let n4 = skip_space_in(text, n, n3);
        let ghost pushed = accv.push(optional_string_view(value));
        acc.push(value);
        assert(optional_strings_view(acc@) =~= pushed);
        if n4 >= n {
            return Ok(acc);
        }
        if text.get_char(n4) != ',' {
            return Err(ParamError::Malformed);
        }
        i = n4 + 1;
    }
}

/// The event names of the parameters, or `EventNameExpected` for the first
/// `event` without a name.
fn names_of(params: &Vec<Option<String>>) -> (names: Result<Vec<String>, ParamError>)
    ensures
        match names {
            Ok(v) => event_names(optional_strings_view(params@)) == Ok::<Seq<Seq<char>>, ParamError>(strings_view(v@)),
            Err(e) => event_names(optional_strings_view(params@)) == Err::<Seq<Seq<char>>, ParamError>(e),
        },
{
    let ghost pv = optional_strings_view(params@);
    let mut names: Vec<String> = Vec::new();
    let mut i: usize = 0;
    assert(strings_view(names@) =~= Seq::<Seq<char>>::empty());
    assert(pv.take(0) =~= Seq::<Option<Seq<char>>>::empty());
    while i < params.len()
        invariant
            pv == optional_strings_view(params@),
            pv.len() == params@.len(),
            0 <= i <= params@.len(),
            event_names(pv.take(i as int)) == Ok::<Seq<Seq<char>>, ParamError>(strings_view(names@)),
        decreases params@.len() - i,
    {
        assert(pv.take(i as int + 1).drop_last() =~= pv.take(i as int));
        match &params[i] {
            None => {
                proof {
                    lemma_event_names_keep_err(pv, i as int + 1);
                }
                return Err(ParamError::EventNameExpected);
            },
            Some(word) => {
                let ghost before = names@;
                names.push(word.clone());
                assert(strings_view(names@) =~= strings_view(before).push(word@));
            },
        }
        i = i + 1;
    }
    assert(pv.take(i as int) =~= pv);
    Ok(names)
}

proof fn lemma_event_names_keep_err(p: Seq<Option<Seq<char>>>, k: int)
    requires
        0 <= k <= p.len(),
        event_names(p.take(k)) is Err,
    ensures
        event_names(p) == event_names(p.take(k)),
    decreases p.len() - k,
{
    if k < p.len() {
        let q = p.take(k + 1);
        assert(q.drop_last() =~= p.take(k));
        assert(q.take(k) =~= p.take(k));
        lemma_event_names_keep_err(p, k + 1);
    } else {
        assert(p.take(k) =~= p);
    }
}

fn attr_is_named(attr: &AttrModel, name: &str) -> (named: bool)
    ensures
        named == is_named(*attr, name@),
{
    if attr.leading_colon {
        return false;
    }
    if attr.path.len() != 1 {
        return false;
    }
    word_is(&attr.path[0], name)
}

/// Takes the attributes named `attr_name` off `attrs`, keeping the others in
/// order, and reads the events they ask for: nothing when there are none,
/// else the event names or the first refusal.
pub fn take_params(attr_name: &str, attrs: &mut Vec<AttrModel>) -> (r: Result<Option<Vec<String>>, ParamError>)
    ensures
        final(attrs)@ == old(attrs)@.filter(|a: AttrModel| !is_named(a, attr_name@)),
        taken_view(r) == spec_take_params(attr_name@, old(attrs)@),
{
    let ghost orig = attrs@;
    let ghost name = attr_name@;
    let mut remaining: Vec<AttrModel> = Vec::new();
    std::mem::swap(&mut remaining, attrs);
    let total = remaining.len();
    let mut k: usize = 0;
    let mut found = false;
    let mut failure: Option<ParamError> = None;
    let mut params: Vec<Option<String>> = Vec::new();
    assert(orig.skip(0) =~= orig);
    assert(orig.take(0) =~= Seq::<AttrModel>::empty());
    assert(orig.take(0).filter(|a: AttrModel| !is_named(a, name)) =~= Seq::<AttrModel>::empty()) by {
        reveal_with_fuel(Seq::<_>::filter, 1);
    }
    assert(optional_strings_view(params@) =~= Seq::<Option<Seq<char>>>::empty());
    while remaining.len() > 0
        invariant
            name == attr_name@,
            total == orig.len(),
            k <= orig.len(),
            remaining@ == orig.skip(k as int),
            attrs@ == orig.take(k as int).filter(|a: AttrModel| !is_named(a, name)),
            found <==> exists|j: int| 0 <= j < k && is_named(#[trigger] orig[j], name),
            match failure {
                Some(e) => collect_params(orig.take(k as int), name) == Err::<Seq<Option<Seq<char>>>, ParamError>(e),
                None => collect_params(orig.take(k as int), name) == Ok::<Seq<Option<Seq<char>>>, ParamError>(optional_strings_view(params@)),
            },
        decreases remaining@.len(),
    {
        let ghost prefix = orig.take(k as int);
        let ghost next = orig.take(k as int + 1);
        assert(next.drop_last() =~= prefix);
        assert(orig.skip(k as int).remove(0) =~= orig.skip(k as int + 1));
        let attr = remaining.remove(0);
        assert(attr == orig[k as int]);
        assert(next.last() == attr);
        assert(next.filter(|a: AttrModel| !is_named(a, name)) == if !is_named(attr, name) {
            prefix.filter(|a: AttrModel| !is_named(a, name)).push(attr)
        } else {
            prefix.filter(|a: AttrModel| !is_named(a, name))
        }) by {
            reveal_with_fuel(Seq::<_>::filter, 1);
        }
        if attr_is_named(&attr, attr_name) {
            found = true;
            if failure.is_none() {
                match &attr.args {
                    AttrArgs::Empty => {
                        assert(optional_strings_view(params@) + Seq::<Option<Seq<char>>>::empty() =~= optional_strings_view(params@));
                    },
                    AttrArgs::Other => {
                        failure = Some(ParamError::Malformed);
                    },
                    AttrArgs::Group(text) => {
                        match parse_args(text.as_str()) {
                            Err(e) => {
                                failure = Some(e);
                            },
                            Ok(more) => {
                                let ghost before = params@;
                                let ghost added = more@;
                                let mut more = more;
                                params.append(&mut more);
                                assert(optional_strings_view(params@) =~= optional_strings_view(before) + optional_strings_view(added));
                            },
                        }
                    },
                }
            }
        } else {
            attrs.push(attr);
        }
        k = k + 1;
    }
    assert(orig.skip(k as int).len() == 0);
    assert(orig.take(k as int) =~= orig);
    if !found {
        return Ok(None);
    }
    match failure {
        Some(e) => Err(e),
        None => match names_of(&params) {
            Ok(names) => Ok(Some(names)),
            Err(e) => Err(e),
        },
    }
}

/// Takes the `event_sink` attributes off `attrs` and gives the events that
/// `EventSink` is to be derived for, in order, or the first refusal.
pub fn event_sink_targets(attrs: &mut Vec<AttrModel>) -> (r: Result<Vec<String>, ParamError>)
    ensures
        final(attrs)@ == old(attrs)@.filter(|a: AttrModel| !is_named(a, "event_sink"@)),
        targets_view(r) == spec_event_sink_targets(old(attrs)@),
{
    match take_params("event_sink", attrs) {
        Err(e) => Err(e),
        Ok(None) => {
            let none: Vec<String> = Vec::new();
            assert(strings_view(none@) =~= Seq::<Seq<char>>::empty());
            Ok(none)
        },
        Ok(Some(names)) => Ok(names),
    }
}

/// A run of identifier characters is exactly a run of XID_Continue
/// characters: from `i`, it ends at the first character that is not
/// XID_Continue, or at the end of the text.
pub proof fn law_word_is_xid_continue_run(s: Seq<char>, i: int, e: int)
    requires
        0 <= i <= e <= s.len(),
        forall|k: int| i <= k < e ==> xid_continue(#[trigger] s[k]),
        e == s.len() || !xid_continue(s[e]),
    ensures
        word_end(s, i) == e,
    decreases e - i,
{
    if i < e {
        law_word_is_xid_continue_run(s, i + 1, e);
    }
}

proof fn lemma_starts_with_char(s: Seq<char>, i: int, p: Seq<char>, k: int)
    requires
        starts_with_at(s, i, p),
        0 <= k < p.len(),
    ensures
        s[i + k] == p[k],
{
    assert(s.subrange(i, i + p.len())[k] == s[i + k]);
}

/// The two characters after `i` are XID_Continue, so neither a literal's
/// prefix nor `r#` starts at `i`.
proof fn lemma_no_prefix_in_word(s: Seq<char>, i: int)
    requires
        0 <= i < s.len(),
        s[i] != 'r' || s.len() == i + 1 || s[i + 1] != '#',
        forall|k: int| i < k < s.len() && k < i + 3 ==> xid_continue(#[trigger] s[k]),
        !xid_continue('"'),
        !xid_continue('\''),
        !xid_continue('#'),
    ensures
        !literal_prefix_at(s, i),
        !raw_at(s, i),
{
    reveal_strlit("r\"");
    reveal_strlit("r#\"");
    reveal_strlit("r##");
    reveal_strlit("b\"");
    reveal_strlit("b'");
    reveal_strlit("br\"");
    reveal_strlit("br#");
    reveal_strlit("c\"");
    reveal_strlit("cr\"");
    reveal_strlit("cr#");
    if starts_with_at(s, i, "r\""@) {
        lemma_starts_with_char(s, i, "r\""@, 1);
    }
    if starts_with_at(s, i, "r#\""@) {
        lemma_starts_with_char(s, i, "r#\""@, 1);
    }
    if starts_with_at(s, i, "r##"@) {
        lemma_starts_with_char(s, i, "r##"@, 1);
    }
    if starts_with_at(s, i, "b\""@) {
        lemma_starts_with_char(s, i, "b\""@, 1);
    }
    if starts_with_at(s, i, "b'"@) {
        lemma_starts_with_char(s, i, "b'"@, 1);
    }
    if starts_with_at(s, i, "br\""@) {
        lemma_starts_with_char(s, i, "br\""@, 2);
    }
    if starts_with_at(s, i, "br#"@) {
        lemma_starts_with_char(s, i, "br#"@, 2);
    }
    if starts_with_at(s, i, "c\""@) {
        lemma_starts_with_char(s, i, "c\""@, 1);
    }
    if starts_with_at(s, i, "cr\""@) {
        lemma_starts_with_char(s, i, "cr\""@, 2);
    }
    if starts_with_at(s, i, "cr#"@) {
        lemma_starts_with_char(s, i, "cr#"@, 2);
    }
}

/// Every identifier can be named as an event: for a word `w` that is no
/// keyword, starts with `_` or an XID_Start character and goes on with
/// XID_Continue characters (digits among them), a single
/// `#[event_sink(event = w)]` asks for the event `w` alone. The facts
/// required of single characters are those of the Unicode tables.
pub proof fn law_any_identifier_names_an_event(attr: AttrModel, w: Seq<char>)
    requires
        xid_start('e'),
        xid_continue('e'),
        xid_continue('v'),
        xid_continue('n'),
        xid_continue('t'),
        !xid_continue('='),
        !xid_continue('"'),
        !xid_continue('\''),
        !xid_continue('#'),
        forall|c: char| is_space(c) ==> !xid_continue(c),
        is_named(attr, "event_sink"@),
        attr.args is Group,
        attr.args->Group_0@ == "event = "@ + w,
        w.len() > 0,
        w[0] == '_' || xid_start(w[0]),
        forall|k: int| 0 <= k < w.len() ==> xid_continue(#[trigger] w[k]),
        !is_keyword(w),
    ensures
        spec_event_sink_targets(seq![attr]) == Ok::<Seq<Seq<char>>, ParamError>(seq![w]),
{
    reveal_strlit("event = ");
    reveal_strlit("event");
    reveal_strlit("event_sink");
    let s = "event = "@ + w;
    let n: int = s.len() as int;
    assert(s[0] == 'e' && s[1] == 'v' && s[2] == 'e' && s[3] == 'n' && s[4] == 't');
    assert(s[5] == ' ' && s[6] == '=' && s[7] == ' ');
    assert forall|k: int| 8 <= k < n implies xid_continue(#[trigger] s[k]) by {
        assert(s[k] == w[k - 8]);
    }
    // the parameter's name
    assert(skip_space(s, 0) == 0);
    lemma_no_prefix_in_word(s, 0);
    law_word_is_xid_continue_run(s, 0, 5);
    assert(s.subrange(0, 5) =~= "event"@);
    assert(!is_keyword("event"@)) by {
        reveal_strlit("_");
        reveal_strlit("abstract");
        reveal_strlit("as");
        reveal_strlit("async");
        reveal_strlit("await");
        reveal_strlit("become");
        reveal_strlit("box");
        reveal_strlit("break");
        reveal_strlit("const");
        reveal_strlit("continue");
        reveal_strlit("crate");
        reveal_strlit("do");
        reveal_strlit("dyn");
        reveal_strlit("else");
        reveal_strlit("enum");
        reveal_strlit("extern");
        reveal_strlit("false");
        reveal_strlit("final");
        reveal_strlit("fn");
        reveal_strlit("for");
        reveal_strlit("if");
        reveal_strlit("impl");
        reveal_strlit("in");
        reveal_strlit("let");
        reveal_strlit("loop");
        reveal_strlit("macro");
        reveal_strlit("match");
        reveal_strlit("mod");
        reveal_strlit("move");
        reveal_strlit("mut");
        reveal_strlit("override");
        reveal_strlit("priv");
        reveal_strlit("pub");
        reveal_strlit("ref");
        reveal_strlit("return");
        reveal_strlit("Self");
        reveal_strlit("self");
        reveal_strlit("static");
        reveal_strlit("struct");
        reveal_strlit("super");
        reveal_strlit("trait");
        reveal_strlit("true");
        reveal_strlit("try");
        reveal_strlit("type");
        reveal_strlit("typeof");
        reveal_strlit("unsafe");
        reveal_strlit("unsized");
        reveal_strlit("use");
        reveal_strlit("virtual");
        reveal_strlit("where");
        reveal_strlit("while");
        reveal_strlit("yield");
        assert("event"@.len() == 5 && "event"@[0] == 'e');
        assert("async"@[0] != 'e' && "await"@[0] != 'e' && "break"@[0] != 'e' && "const"@[0] != 'e');
        assert("crate"@[0] != 'e' && "false"@[0] != 'e' && "final"@[0] != 'e' && "macro"@[0] != 'e');
        assert("match"@[0] != 'e' && "super"@[0] != 'e' && "trait"@[0] != 'e' && "while"@[0] != 'e');
        assert("yield"@[0] != 'e');
    }
    assert(ident_at(s, 0));
    assert(ident_end(s, 0) == 5);
    // `=` and the event's name
    assert(skip_space(s, 6) == 6);
    assert(skip_space(s, 5) == 6);
    assert(!is_space(s[8]));
    assert(skip_space(s, 8) == 8);
    assert(skip_space(s, 7) == 8);
    lemma_no_prefix_in_word(s, 8);
    law_word_is_xid_continue_run(s, 8, n);
    assert(s.subrange(8, n) =~= w);
    assert(ident_at(s, 8));
    assert(ident_end(s, 8) == n);
    assert(skip_space(s, n) == n);
    assert(parse_params_from(s, 0, Seq::empty()) == Ok::<Seq<Option<Seq<char>>>, ParamError>(seq![Some(w)]));
    let attrs = seq![attr];
    assert(is_named(attrs[0], "event_sink"@));
    assert(attrs.drop_last() =~= Seq::<AttrModel>::empty());
    assert(Seq::<Option<Seq<char>>>::empty() + seq![Some(w)] =~= seq![Some(w)]);
    assert(attrs.last() == attr);
    assert(collect_params(attrs.drop_last(), "event_sink"@) == Ok::<Seq<Option<Seq<char>>>, ParamError>(Seq::empty()));
    assert(attr_params(attr) == Ok::<Seq<Option<Seq<char>>>, ParamError>(seq![Some(w)]));
    assert(collect_params(attrs, "event_sink"@) == Ok::<Seq<Option<Seq<char>>>, ParamError>(seq![Some(w)]));
    let params = seq![Some(w)];
    assert(params.drop_last() =~= Seq::<Option<Seq<char>>>::empty());
    assert(event_names(params.drop_last()) == Ok::<Seq<Seq<char>>, ParamError>(Seq::empty()));
    assert(params.last() == Some(w));
    assert(Seq::<Seq<char>>::empty().push(w) =~= seq![w]);
    assert(event_names(params) == Ok::<Seq<Seq<char>>, ParamError>(seq![w]));
}

} // verus!
