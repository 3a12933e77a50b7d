use crate::text::same_text;
use vstd::prelude::*;

verus! {

/// The effective configuration of one generation.
pub struct Settings {
    /// Capabilities that the companion type derives, as paths (`Debug`, `std::clone::Clone`).
    pub derives: Vec<String>,
    /// Text put before the base type's name to name the companion type.
    pub prefix: String,
    /// Text put after the base type's name to name the companion type.
    pub suffix: String,
    /// The companion type's visibility as source text (empty when inherited).
    pub visibility: String,
}

pub open spec fn is_default_settings(s: Settings) -> bool {
    &&& s.derives@.len() == 0
    &&& s.prefix@ == "Optional"@
    &&& s.suffix@.len() == 0
    &&& s.visibility@.len() == 0
}

impl Default for Settings {
    fn default() -> (r: Settings)
        ensures
            is_default_settings(r),
    {
        Settings {
            derives: Vec::new(),
            prefix: String::from_str("Optional"),
            suffix: String::new(),
            visibility: String::new(),
        }
    }
}

/// What the parser makes of a configuration, over plain values.
pub struct SettingsView {
    pub derives: Seq<Seq<char>>,
    pub prefix: Seq<char>,
    pub suffix: Seq<char>,
    pub visibility: Seq<char>,
}

pub open spec fn texts(v: Seq<String>) -> Seq<Seq<char>> {
    v.map_values(|x: String| x@)
}

impl View for Settings {
    type V = SettingsView;

    open spec fn view(&self) -> SettingsView {
        SettingsView {
            derives: texts(self.derives@),
            prefix: self.prefix@,
            suffix: self.suffix@,
            visibility: self.visibility@,
        }
    }
}

pub open spec fn default_view() -> SettingsView {
    SettingsView {
        derives: Seq::empty(),
        prefix: "Optional"@,
        suffix: Seq::empty(),
        visibility: Seq::empty(),
    }
}

/// Why a configuration was refused.
#[derive(Clone, Copy, PartialEq, Eq, Structural, Debug)]
pub enum ConfigErrorKind {
    /// Something other than a key where a key must start.
    ExpectedKey,
    /// A key other than `derives`, `prefix`, `suffix` and `visibility`.
    UnknownKey,
    /// A key not followed by `=`.
    ExpectedEquals,
    /// A value not followed by `,` or the end of the text.
    ExpectedComma,
    /// Something other than `"` where a quoted string must start.
    ExpectedString,
    /// A quoted string without its closing `"`.
    UnterminatedString,
    /// A backslash inside a quoted string; escapes are not taken.
    EscapeInString,
    /// Something other than `[` where the derive list must start.
    ExpectedList,
    /// A derive list without its closing `]`.
    UnterminatedList,
    /// Something other than a path where a capability or a module path must stand.
    ExpectedPath,
    /// A visibility other than `pub`, `pub(crate)`, `pub(self)`, `pub(super)`, `pub(in path)`.
    ExpectedVisibility,
}

/// A refused configuration: the reason and the index of the character where it was found.
#[derive(Clone, Copy, PartialEq, Eq, Structural, Debug)]
pub struct ConfigError {
    pub kind: ConfigErrorKind,
    pub pos: usize,
}

/// A short description of each reason.
pub open spec fn reason_text(kind: ConfigErrorKind) -> Seq<char> {
    match kind {
        ConfigErrorKind::ExpectedKey => "expected a key"@,
        ConfigErrorKind::UnknownKey => "unknown key; expected derives, prefix, suffix or visibility"@,
        ConfigErrorKind::ExpectedEquals => "expected `=` after the key"@,
        ConfigErrorKind::ExpectedComma => "expected `,` between entries"@,
        ConfigErrorKind::ExpectedString => "expected a quoted string"@,
        ConfigErrorKind::UnterminatedString => "unterminated string"@,
        ConfigErrorKind::EscapeInString => "escapes are not allowed in strings"@,
        ConfigErrorKind::ExpectedList => "expected `[`"@,
        ConfigErrorKind::UnterminatedList => "unterminated list; expected `]`"@,
        ConfigErrorKind::ExpectedPath => "expected a path"@,
        ConfigErrorKind::ExpectedVisibility => "expected a visibility such as `pub` or `pub(crate)`"@,
    }
}

impl ConfigError {
    /// A message for the user, naming the reason.
    pub fn message(&self) -> (r: String)
        ensures
            r@ == reason_text(self.kind),
    {
        let t = match self.kind {
            ConfigErrorKind::ExpectedKey => "expected a key",
            ConfigErrorKind::UnknownKey => "unknown key; expected derives, prefix, suffix or visibility",
            ConfigErrorKind::ExpectedEquals => "expected `=` after the key",
            ConfigErrorKind::ExpectedComma => "expected `,` between entries",
            ConfigErrorKind::ExpectedString => "expected a quoted string",
            ConfigErrorKind::UnterminatedString => "unterminated string",
            ConfigErrorKind::EscapeInString => "escapes are not allowed in strings",
            ConfigErrorKind::ExpectedList => "expected `[`",
            ConfigErrorKind::UnterminatedList => "unterminated list; expected `]`",
            ConfigErrorKind::ExpectedPath => "expected a path",
            ConfigErrorKind::ExpectedVisibility => "expected a visibility such as `pub` or `pub(crate)`",
        };
        String::from_str(t)
    }
}

pub open spec fn err(kind: ConfigErrorKind, pos: int) -> ConfigError {
    ConfigError { kind, pos: pos as usize }
}

// ---------------------------------------------------------------- characters

pub open spec fn is_space_spec(c: char) -> bool {
    c == ' ' || c == '\t' || c == '\n' || c == '\r'
}

pub open spec fn is_word_start_spec(c: char) -> bool {
    ('a' <= c && c <= 'z') || ('A' <= c && c <= 'Z') || c == '_'
}

pub open spec fn is_word_char_spec(c: char) -> bool {
    is_word_start_spec(c) || ('0' <= c && c <= '9')
}

pub open spec fn at(t: Seq<char>, i: int, c: char) -> bool {
    0 <= i < t.len() && t[i] == c
}

/// Whether an identifier starts at `i`.
pub open spec fn word_at(t: Seq<char>, i: int) -> bool {
    0 <= i < t.len() && is_word_start_spec(t[i])
}

/// The first index from `i` on that holds no white space.
pub open spec fn spaces_end(t: Seq<char>, i: int) -> int
    decreases t.len() - i,
{
    if 0 <= i < t.len() && is_space_spec(t[i]) {
        spaces_end(t, i + 1)
    } else {
        i
    }
}

/// The first index from `i` on that holds no identifier character.
pub open spec fn word_end(t: Seq<char>, i: int) -> int
    decreases t.len() - i,
{
    if 0 <= i < t.len() && is_word_char_spec(t[i]) {
        word_end(t, i + 1)
    } else {
        i
    }
}

pub proof fn lemma_spaces_end(t: Seq<char>, i: int)
    requires
        0 <= i <= t.len(),
    ensures
        i <= spaces_end(t, i) <= t.len(),
    decreases t.len() - i,
{
    if i < t.len() && is_space_spec(t[i]) {
        lemma_spaces_end(t, i + 1);
    }
}

pub proof fn lemma_word_end(t: Seq<char>, i: int)
    requires
        0 <= i <= t.len(),
    ensures
        i <= word_end(t, i) <= t.len(),
    decreases t.len() - i,
{
    if i < t.len() && is_word_char_spec(t[i]) {
        lemma_word_end(t, i + 1);
    }
}

fn is_space(c: char) -> (r: bool)
    ensures
        r == is_space_spec(c),
{
    c == ' ' || c == '\t' || c == '\n' || c == '\r'
}

fn is_word_start(c: char) -> (r: bool)
    ensures
        r == is_word_start_spec(c),
{
    ('a' <= c && c <= 'z') || ('A' <= c && c <= 'Z') || c == '_'
}

fn is_word_char(c: char) -> (r: bool)
    ensures
        r == is_word_char_spec(c),
{
    is_word_start(c) || ('0' <= c && c <= '9')
}

fn skip_spaces(t: &Vec<char>, i: usize) -> (r: usize)
    requires
        i <= t.len(),
    ensures
        r == spaces_end(t@, i as int),
        i <= r <= t.len(),
{
    let mut j = i;
    while j < t.len() && is_space(t[j])
        invariant
            i <= j <= t.len(),
            spaces_end(t@, j as int) == spaces_end(t@, i as int),
        decreases t.len() - j,
    {
        j = j + 1;
    }
    j
}

fn scan_word(t: &Vec<char>, i: usize) -> (r: usize)
    requires
        i <= t.len(),
    ensures
        r == word_end(t@, i as int),
        i <= r <= t.len(),
{
    let mut j = i;
    while j < t.len() && is_word_char(t[j])
        invariant
            i <= j <= t.len(),
            word_end(t@, j as int) == word_end(t@, i as int),
        decreases t.len() - j,
    {
        j = j + 1;
    }
    j
}

fn has_char(t: &Vec<char>, i: usize, c: char) -> (r: bool)
    ensures
        r == at(t@, i as int, c),
{
    i < t.len() && t[i] == c
}

fn has_word(t: &Vec<char>, i: usize) -> (r: bool)
    ensures
        r == word_at(t@, i as int),
{
    i < t.len() && is_word_start(t[i])
}

fn piece(text: &str, from: usize, to: usize) -> (r: String)
    requires
        from <= to <= text@.len(),
    ensures
        r@ == text@.subrange(from as int, to as int),
{
    String::from_str(text.substring_char(from, to))
}

/// Whether the exec result `r` is the spec result `s`.
pub open spec fn text_result_is(
    r: Result<(String, usize), ConfigError>,
    s: Result<(Seq<char>, int), ConfigError>,
) -> bool {
    match r {
        Ok((v, p)) => s == Ok::<(Seq<char>, int), ConfigError>((v@, p as int)),
        Err(e) => s == Err::<(Seq<char>, int), ConfigError>(e),
    }
}

// ---------------------------------------------------------------- values

/// The first index from `i` on that holds `"`, a backslash, or is the end.
pub open spec fn string_end(t: Seq<char>, i: int) -> int
    decreases t.len() - i,
{
    if 0 <= i < t.len() && t[i] != '"' && t[i] != '\\' {
        string_end(t, i + 1)
    } else {
        i
    }
}

pub proof fn lemma_string_end(t: Seq<char>, i: int)
    requires
        0 <= i <= t.len(),
    ensures
        i <= string_end(t, i) <= t.len(),
    decreases t.len() - i,
{
    if i < t.len() && t[i] != '"' && t[i] != '\\' {
        lemma_string_end(t, i + 1);
    }
}

/// A quoted string at `i`: its contents and the index after the closing quote.
pub open spec fn string_at(t: Seq<char>, i: int) -> Result<(Seq<char>, int), ConfigError> {
    if !at(t, i, '"') {
        Err(err(ConfigErrorKind::ExpectedString, i))
    } else {
        let j = string_end(t, i + 1);
        if j >= t.len() {
            Err(err(ConfigErrorKind::UnterminatedString, i))
        } else if t[j] == '\\' {
            Err(err(ConfigErrorKind::EscapeInString, j))
        } else {
            Ok((t.subrange(i + 1, j), j + 1))
        }
    }
}

fn parse_string(text: &str, t: &Vec<char>, i: usize) -> (r: Result<(String, usize), ConfigError>)
    requires
        t@ == text@,
        i <= t.len(),
    ensures
        text_result_is(r, string_at(t@, i as int)),
        r matches Ok((_, p)) ==> i < p <= t.len(),
{
    if !has_char(t, i, '"') {
        return Err(ConfigError { kind: ConfigErrorKind::ExpectedString, pos: i });
    }
    let mut j = i + 1;
    while j < t.len() && t[j] != '"' && t[j] != '\\'
        invariant
            i < j <= t.len(),
            string_end(t@, j as int) == string_end(t@, i + 1),
        decreases t.len() - j,
    {
        j = j + 1;
    }
    if j >= t.len() {
        Err(ConfigError { kind: ConfigErrorKind::UnterminatedString, pos: i })
    } else if t[j] == '\\' {
        Err(ConfigError { kind: ConfigErrorKind::EscapeInString, pos: j })
    } else {
        Ok((piece(text, i + 1, j), j + 1))
    }
}

/// The rest of a path after its segments so far (`acc`), from `i` on: `::` and an
/// identifier, as often as they come, with white space allowed around `::`.
pub open spec fn path_tail(t: Seq<char>, i: int, acc: Seq<char>) -> Result<(Seq<char>, int), ConfigError>
    decreases t.len() - i,
    when 0 <= i <= t.len()
{
    let j = spaces_end(t, i);
    if at(t, j, ':') && at(t, j + 1, ':') {
        let k = spaces_end(t, j + 2);
        if word_at(t, k) {
            let e = word_end(t, k + 1);
            proof {
                lemma_spaces_end(t, i);
                lemma_spaces_end(t, j + 2);
                lemma_word_end(t, k + 1);
            }
            path_tail(t, e, acc + "::"@ + t.subrange(k, e))
        } else {
            Err(err(ConfigErrorKind::ExpectedPath, k))
        }
    } else {
        Ok((acc, i))
    }
}

/// A path at `i` (`Debug`, `std::clone::Clone`), written back with no white space.
pub open spec fn path_at(t: Seq<char>, i: int) -> Result<(Seq<char>, int), ConfigError> {
    if word_at(t, i) {
        let e = word_end(t, i + 1);
        path_tail(t, e, t.subrange(i, e))
    } else {
        Err(err(ConfigErrorKind::ExpectedPath, i))
    }
}

pub proof fn lemma_path_tail(t: Seq<char>, i: int, acc: Seq<char>)
    requires
        0 <= i <= t.len(),
    ensures
        path_tail(t, i, acc) matches Ok((_, p)) ==> i <= p <= t.len(),
    decreases t.len() - i,
{
    let j = spaces_end(t, i);
    lemma_spaces_end(t, i);
    if at(t, j, ':') && at(t, j + 1, ':') {
        let k = spaces_end(t, j + 2);
        lemma_spaces_end(t, j + 2);
        if word_at(t, k) {
            let e = word_end(t, k + 1);
            lemma_word_end(t, k + 1);
            lemma_path_tail(t, e, acc + "::"@ + t.subrange(k, e));
        }
    }
}

fn parse_path(text: &str, t: &Vec<char>, i: usize) -> (r: Result<(String, usize), ConfigError>)
    requires
        t@ == text@,
        i <= t.len(),
    ensures
        text_result_is(r, path_at(t@, i as int)),
        r matches Ok((_, p)) ==> i < p <= t.len(),
{
    if !has_word(t, i) {
        return Err(ConfigError { kind: ConfigErrorKind::ExpectedPath, pos: i });
    }
    let e = scan_word(t, i + 1);
    let mut acc = piece(text, i, e);
    let mut pos = e;
    loop
        invariant
            t@ == text@,
            i < pos <= t.len(),
            path_tail(t@, pos as int, acc@) == path_at(t@, i as int),
        decreases t.len() - pos,
    {
        let j = skip_spaces(t, pos);
        if has_char(t, j, ':') && has_char(t, j + 1, ':') {
            let k = skip_spaces(t, j + 2);
            if has_word(t, k) {
                let e2 = scan_word(t, k + 1);
                acc.append("::");
                let seg = piece(text, k, e2);
                acc.append(seg.as_str());
                pos = e2;
            } else {
                return Err(ConfigError { kind: ConfigErrorKind::ExpectedPath, pos: k });
            }
        } else {
            return Ok((acc, pos));
        }
    }
}

/// The items of a derive list after `acc`, from `i` on, up to and past the closing `]`.
pub open spec fn list_items(t: Seq<char>, i: int, acc: Seq<Seq<char>>) -> Result<
    (Seq<Seq<char>>, int),
    ConfigError,
>
    decreases t.len() - i,
    when 0 <= i <= t.len()
{
    let j = spaces_end(t, i);
    if j >= t.len() {
        Err(err(ConfigErrorKind::UnterminatedList, j))
    } else if t[j] == ']' {
        Ok((acc, j + 1))
    } else {
        match path_at(t, j) {
            Err(x) => Err(x),
            Ok((p, e)) => {
                let k = spaces_end(t, e);
                if at(t, k, ',') {
                    proof {
                        lemma_spaces_end(t, i);
                        if word_at(t, j) {
                            lemma_word_end(t, j + 1);
                            lemma_path_tail(t, word_end(t, j + 1), t.subrange(j, word_end(t, j + 1)));
                        }
                        lemma_spaces_end(t, e);
                    }
                    list_items(t, k + 1, acc.push(p))
                } else if at(t, k, ']') {
                    Ok((acc.push(p), k + 1))
                } else if k >= t.len() {
                    Err(err(ConfigErrorKind::UnterminatedList, k))
                } else {
                    Err(err(ConfigErrorKind::ExpectedComma, k))
                }
            },
        }
    }
}

/// A bracketed derive list at `i`: its paths in order and the index after `]`.
pub open spec fn list_at(t: Seq<char>, i: int) -> Result<(Seq<Seq<char>>, int), ConfigError> {
    if at(t, i, '[') {
        list_items(t, i + 1, Seq::empty())
    } else {
        Err(err(ConfigErrorKind::ExpectedList, i))
    }
}

fn parse_list(text: &str, t: &Vec<char>, i: usize) -> (r: Result<(Vec<String>, usize), ConfigError>)
    requires
        t@ == text@,
        i <= t.len(),
    ensures
        match r {
            Ok((v, p)) => list_at(t@, i as int) == Ok::<(Seq<Seq<char>>, int), ConfigError>(
                (texts(v@), p as int),
            ) && i < p <= t.len(),
            Err(e) => list_at(t@, i as int) == Err::<(Seq<Seq<char>>, int), ConfigError>(e),
        },
{
    if !has_char(t, i, '[') {
        return Err(ConfigError { kind: ConfigErrorKind::ExpectedList, pos: i });
    }
    let mut items: Vec<String> = Vec::new();
    let mut pos = i + 1;
    proof {
        assert(texts(items@) =~= Seq::<Seq<char>>::empty());
    }
    loop
        invariant
            t@ == text@,
            i < pos <= t.len(),
            list_items(t@, pos as int, texts(items@)) == list_at(t@, i as int),
        decreases t.len() - pos,
    {
        let j = skip_spaces(t, pos);
        if j >= t.len() {
            return Err(ConfigError { kind: ConfigErrorKind::UnterminatedList, pos: j });
        } else if t[j] == ']' {
            return Ok((items, j + 1));
        }
        let (p, e) = match parse_path(text, t, j) {
            Err(x) => {
                return Err(x);
            },
            Ok(v) => v,
        };
        let k = skip_spaces(t, e);
        let ghost before = items@;
        items.push(p);
        proof {
            assert(texts(items@) =~= texts(before).push(p@));
        }
        if has_char(t, k, ',') {
            pos = k + 1;
        } else if has_char(t, k, ']') {
            return Ok((items, k + 1));
        } else if k >= t.len() {
            return Err(ConfigError { kind: ConfigErrorKind::UnterminatedList, pos: k });
        } else {
            return Err(ConfigError { kind: ConfigErrorKind::ExpectedComma, pos: k });
        }
    }
}

/// A visibility at `i`: `pub`, `pub(crate)`, `pub(self)`, `pub(super)` or `pub(in path)`,
/// written back without inner white space but the one after `in`.
pub open spec fn visibility_at(t: Seq<char>, i: int) -> Result<(Seq<char>, int), ConfigError> {
    if !word_at(t, i) || t.subrange(i, word_end(t, i + 1)) != "pub"@ {
        Err(err(ConfigErrorKind::ExpectedVisibility, i))
    } else {
        let e = word_end(t, i + 1);
        let j = spaces_end(t, e);
        if !at(t, j, '(') {
            Ok(("pub"@, e))
        } else {
            let k = spaces_end(t, j + 1);
            if !word_at(t, k) {
                Err(err(ConfigErrorKind::ExpectedVisibility, k))
            } else {
                let e2 = word_end(t, k + 1);
                let w = t.subrange(k, e2);
                if w == "crate"@ || w == "self"@ || w == "super"@ {
                    let m = spaces_end(t, e2);
                    if at(t, m, ')') {
                        Ok(("pub("@ + w + ")"@, m + 1))
                    } else {
                        Err(err(ConfigErrorKind::ExpectedVisibility, m))
                    }
                } else if w == "in"@ {
                    match path_at(t, spaces_end(t, e2)) {
                        Err(x) => Err(x),
                        Ok((p, e3)) => {
                            let m = spaces_end(t, e3);
                            if at(t, m, ')') {
                                Ok(("pub(in "@ + p + ")"@, m + 1))
                            } else {
                                Err(err(ConfigErrorKind::ExpectedVisibility, m))
                            }
                        },
                    }
                } else {
                    Err(err(ConfigErrorKind::ExpectedVisibility, k))
                }
            }
        }
    }
}

fn parse_visibility(text: &str, t: &Vec<char>, i: usize) -> (r: Result<(String, usize), ConfigError>)
    requires
        t@ == text@,
        i <= t.len(),
    ensures
        text_result_is(r, visibility_at(t@, i as int)),
        r matches Ok((_, p)) ==> i < p <= t.len(),
{
    if !has_word(t, i) {
        return Err(ConfigError { kind: ConfigErrorKind::ExpectedVisibility, pos: i });
    }
    let e = scan_word(t, i + 1);
    if !same_text(text.substring_char(i, e), "pub") {
        return Err(ConfigError { kind: ConfigErrorKind::ExpectedVisibility, pos: i });
    }
    let j = skip_spaces(t, e);
    if !has_char(t, j, '(') {
        return Ok((String::from_str("pub"), e));
    }
    let k = skip_spaces(t, j + 1);
    if !has_word(t, k) {
        return Err(ConfigError { kind: ConfigErrorKind::ExpectedVisibility, pos: k });
    }
    let e2 = scan_word(t, k + 1);
    let w = text.substring_char(k, e2);
    if same_text(w, "crate") || same_text(w, "self") || same_text(w, "super") {
        let m = skip_spaces(t, e2);
        if has_char(t, m, ')') {
            let mut out = String::from_str("pub(");
            out.append(w);
            out.append(")");
            Ok((out, m + 1))
        } else {
            Err(ConfigError { kind: ConfigErrorKind::ExpectedVisibility, pos: m })
        }
    } else if same_text(w, "in") {
        let start = skip_spaces(t, e2);
        match parse_path(text, t, start) {
            Err(x) => Err(x),
            Ok((p, e3)) => {
                let m = skip_spaces(t, e3);
                if has_char(t, m, ')') {
                    let mut out = String::from_str("pub(in ");
                    out.append(p.as_str());
                    out.append(")");
                    Ok((out, m + 1))
                } else {
                    Err(ConfigError { kind: ConfigErrorKind::ExpectedVisibility, pos: m })
                }
            },
        }
    } else {
        Err(ConfigError { kind: ConfigErrorKind::ExpectedVisibility, pos: k })
    }
}

// ---------------------------------------------------------------- entries

pub proof fn lemma_value_ends(t: Seq<char>, i: int)
    requires
        0 <= i <= t.len(),
    ensures
        string_at(t, i) matches Ok((_, p)) ==> i < p <= t.len(),
        list_at(t, i) matches Ok((_, p)) ==> i < p <= t.len(),
        visibility_at(t, i) matches Ok((_, p)) ==> i < p <= t.len(),
{
    if at(t, i, '"') {
        lemma_string_end(t, i + 1);
    }
    if at(t, i, '[') {
        lemma_list_items(t, i + 1, Seq::empty());
    }
    if word_at(t, i) {
        lemma_word_end(t, i + 1);
        let e = word_end(t, i + 1);
        lemma_spaces_end(t, e);
        let j = spaces_end(t, e);
        if at(t, j, '(') {
            lemma_spaces_end(t, j + 1);
            let k = spaces_end(t, j + 1);
            if word_at(t, k) {
                lemma_word_end(t, k + 1);
                let e2 = word_end(t, k + 1);
                lemma_spaces_end(t, e2);
                let s = spaces_end(t, e2);
                if word_at(t, s) {
                    lemma_word_end(t, s + 1);
                    lemma_path_tail(t, word_end(t, s + 1), t.subrange(s, word_end(t, s + 1)));
                }
                if let Ok((_, e3)) = path_at(t, s) {
                    lemma_spaces_end(t, e3);
                }
            }
        }
    }
}

pub proof fn lemma_list_items(t: Seq<char>, i: int, acc: Seq<Seq<char>>)
    requires
        0 <= i <= t.len(),
    ensures
        list_items(t, i, acc) matches Ok((_, p)) ==> i < p <= t.len(),
    decreases t.len() - i,
{
    lemma_spaces_end(t, i);
    let j = spaces_end(t, i);
    if j < t.len() && t[j] != ']' {
        if word_at(t, j) {
            lemma_word_end(t, j + 1);
            lemma_path_tail(t, word_end(t, j + 1), t.subrange(j, word_end(t, j + 1)));
        }
        if let Ok((p, e)) = path_at(t, j) {
            lemma_spaces_end(t, e);
            let k = spaces_end(t, e);
            if at(t, k, ',') {
                lemma_list_items(t, k + 1, acc.push(p));
            }
        }
    }
}

/// The settings after one `key = value` entry at `v` has been applied to `acc`, and the
/// index after the value; `j` is where the key starts.
pub open spec fn entry_at(t: Seq<char>, key: Seq<char>, j: int, v: int, acc: SettingsView) -> Result<
    (SettingsView, int),
    ConfigError,
> {
    if key == "derives"@ {
        match list_at(t, v) {
            Ok((ds, p)) => Ok(
                (
                    SettingsView {
                        derives: ds,
                        prefix: acc.prefix,
                        suffix: acc.suffix,
                        visibility: acc.visibility,
                    },
                    p,
                ),
            ),
            Err(x) => Err(x),
        }
    } else if key == "prefix"@ {
        match string_at(t, v) {
            Ok((w, p)) => Ok(
                (
                    SettingsView {
                        derives: acc.derives,
                        prefix: w,
                        suffix: acc.suffix,
                        visibility: acc.visibility,
                    },
                    p,
                ),
            ),
            Err(x) => Err(x),
        }
    } else if key == "suffix"@ {
        match string_at(t, v) {
            Ok((w, p)) => Ok(
                (
                    SettingsView {
                        derives: acc.derives,
                        prefix: acc.prefix,
                        suffix: w,
                        visibility: acc.visibility,
                    },
                    p,
                ),
            ),
            Err(x) => Err(x),
        }
    } else if key == "visibility"@ {
        match visibility_at(t, v) {
            Ok((w, p)) => Ok(
                (
                    SettingsView {
                        derives: acc.derives,
                        prefix: acc.prefix,
                        suffix: acc.suffix,
                        visibility: w,
                    },
                    p,
                ),
            ),
            Err(x) => Err(x),
        }
    } else {
        Err(err(ConfigErrorKind::UnknownKey, j))
    }
}

/// The entries from `i` on, applied in order to `acc`: a later entry for a key replaces an
/// earlier one. Entries are separated by commas; a trailing comma is allowed.
pub open spec fn entries_from(t: Seq<char>, i: int, acc: SettingsView) -> Result<
    SettingsView,
    ConfigError,
>
    decreases t.len() - i,
    when 0 <= i <= t.len()
{
    let j = spaces_end(t, i);
    if j >= t.len() {
        Ok(acc)
    } else if !word_at(t, j) {
        Err(err(ConfigErrorKind::ExpectedKey, j))
    } else {
        let e = word_end(t, j + 1);
        let k = spaces_end(t, e);
        if !at(t, k, '=') {
            Err(err(ConfigErrorKind::ExpectedEquals, k))
        } else {
            let v = spaces_end(t, k + 1);
            match entry_at(t, t.subrange(j, e), j, v, acc) {
                Err(x) => Err(x),
                Ok((next, p)) => {
                    let q = spaces_end(t, p);
                    if q >= t.len() {
                        Ok(next)
                    } else if t[q] == ',' {
                        proof {
                            lemma_spaces_end(t, i);
                            lemma_word_end(t, j + 1);
                            lemma_spaces_end(t, e);
                            lemma_spaces_end(t, k + 1);
                            lemma_value_ends(t, v);
                            lemma_spaces_end(t, p);
                        }
                        entries_from(t, q + 1, next)
                    } else {
                        Err(err(ConfigErrorKind::ExpectedComma, q))
                    }
                },
            }
        }
    }
}

/// What a configuration text stands for: the defaults, with each entry applied in order.
pub open spec fn settings_of(t: Seq<char>) -> Result<SettingsView, ConfigError> {
    entries_from(t, 0, default_view())
}

fn chars_of(text: &str) -> (r: Vec<char>)
    ensures
        r@ == text@,
{
    let n = text.unicode_len();
    let mut r: Vec<char> = Vec::new();
    let mut i: usize = 0;
    while i < n
        invariant
            n == text@.len(),
            i <= n,
            r@ == text@.take(i as int),
        decreases n - i,
    {
        r.push(text.get_char(i));
        proof {
            assert(text@.take(i + 1) =~= text@.take(i as int).push(text@[i as int]));
        }
        i = i + 1;
    }
    assert(text@.take(n as int) =~= text@);
    r
}

/// Parses a configuration: comma-separated `key = value` entries with the keys `derives`
/// (a bracketed list of paths), `prefix` and `suffix` (quoted strings) and `visibility`;
/// absent keys keep their defaults, and an empty text gives the defaults. A key may come more
/// than once, the last entry winning. Any other key is refused rather than ignored, so that a
/// misspelt key does not silently leave its default in place.
pub fn parse_settings(text: &str) -> (r: Result<Settings, ConfigError>)
    ensures
        match r {
            Ok(s) => settings_of(text@) == Ok::<SettingsView, ConfigError>(s@),
            Err(e) => settings_of(text@) == Err::<SettingsView, ConfigError>(e),
        },
{
    let t = chars_of(text);
    let mut acc = Settings::default();
    proof {
        assert(acc@.derives =~= default_view().derives);
        assert(acc@.suffix =~= default_view().suffix);
        assert(acc@.visibility =~= default_view().visibility);
        assert(acc@ == default_view());
    }
    let mut pos: usize = 0;
    loop
        invariant
            t@ == text@,
            pos <= t.len(),
            entries_from(t@, pos as int, acc@) == settings_of(text@),
        decreases t.len() - pos,
    {
        let j = skip_spaces(&t, pos);
        if j >= t.len() {
            return Ok(acc);
        }
        if !has_word(&t, j) {
            return Err(ConfigError { kind: ConfigErrorKind::ExpectedKey, pos: j });
        }
        let e = scan_word(&t, j + 1);
        let k = skip_spaces(&t, e);
        if !has_char(&t, k, '=') {
            return Err(ConfigError { kind: ConfigErrorKind::ExpectedEquals, pos: k });
        }
        let v = skip_spaces(&t, k + 1);
        let key = text.substring_char(j, e);
        let ghost before = acc@;
        let p = if same_text(key, "derives") {
            match parse_list(text, &t, v) {
                Ok((ds, p)) => {
                    acc.derives = ds;
                    p
                },
                Err(x) => {
                    return Err(x);
                },
            }
        } else if same_text(key, "prefix") {
            match parse_string(text, &t, v) {
                Ok((w, p)) => {
                    acc.prefix = w;
                    p
                },
                Err(x) => {
                    return Err(x);
                },
            }
        } else if same_text(key, "suffix") {
            match parse_string(text, &t, v) {
                Ok((w, p)) => {
                    acc.suffix = w;
                    p
                },
                Err(x) => {
                    return Err(x);
                },
            }
        } else if same_text(key, "visibility") {
            match parse_visibility(text, &t, v) {
                Ok((w, p)) => {
                    acc.visibility = w;
                    p
                },
                Err(x) => {
                    return Err(x);
                },
            }
        } else {
            return Err(ConfigError { kind: ConfigErrorKind::UnknownKey, pos: j });
        };
        assert(entry_at(t@, key@, j as int, v as int, before) == Ok::<
            (SettingsView, int),
            ConfigError,
        >((acc@, p as int)));
        let q = skip_spaces(&t, p);
        if q >= t.len() {
            return Ok(acc);
        } else if t[q] == ',' {
            pos = q + 1;
        } else {
            return Err(ConfigError { kind: ConfigErrorKind::ExpectedComma, pos: q });
        }
    }
}

} // verus!
