//! Redaction of secrets in text that leaves the machine.
//!
//! Text sent to an outside model (requirement documents, source snippets,
//! process output, page summaries) may carry credentials. Each line is
//! redacted on its own: a line that mentions a sensitive key keeps its key
//! part and loses the value; otherwise every space-separated token that starts
//! with a well-known credential prefix is replaced.
use vstd::prelude::*;
use crate::text::{
    contains, ascii_lower, ascii_lower_chars, chars_of, contains_any, contains_any_str, extend_chars, join,
    join_chars, lemma_split_join, lines, lines_of, rfind_class, rfind_class_chars, slice_vec,
    split_char, split_chars, starts_with_any, starts_with_any_str, str_views, string_of, strip_chars,
    strip_class, utf8_len, utf8_len_at_least, views, CharClass,
};

verus! {

/// Keys whose presence marks the rest of the line as sensitive.
pub open spec fn sensitive_keys() -> Seq<Seq<char>> {
    seq![
        "api_key"@,
        "apikey"@,
        "api-key"@,
        "secret"@,
        "password"@,
        "passwd"@,
        "passphrase"@,
        "token"@,
        "authorization"@,
        "auth_token"@,
        "access_key"@,
        "private_key"@,
        "client_secret"@,
        "connection_string"@,
    ]
}

/// Prefixes of credential tokens that rarely collide with ordinary words.
pub open spec fn token_prefixes() -> Seq<Seq<char>> {
    seq!["sk-"@, "ghp_"@, "gho_"@, "ghs_"@, "github_pat_"@, "xoxb-"@, "xoxp-"@]
}

/// The replacement text.
pub open spec fn redacted() -> Seq<char> {
    "[REDACTED]"@
}

/// A token that looks like a credential: once stripped of surrounding
/// punctuation it is at least 12 bytes long and starts with a known prefix.
pub open spec fn looks_like_secret(token: Seq<char>) -> bool {
    let trimmed = strip_class(token, CharClass::NonTokenChar);
    utf8_len(trimmed) >= 12 && starts_with_any(ascii_lower(trimmed), token_prefixes())
}

/// Replaces a token that looks like a credential.
pub open spec fn redact_token(token: Seq<char>) -> Seq<char> {
    if looks_like_secret(token) {
        redacted()
    } else {
        token
    }
}

/// A line with every credential-looking space-separated token replaced.
pub open spec fn redact_tokens_spec(line: Seq<char>) -> Seq<char> {
    join(split_char(line, ' ').map_values(|t: Seq<char>| redact_token(t)), seq![' '])
}

/// A line with its sensitive value hidden.
pub open spec fn redact_line_spec(line: Seq<char>) -> Seq<char> {
    if contains_any(ascii_lower(line), sensitive_keys()) {
        match rfind_class(line, CharClass::KeyValueSeparator) {
            Some(pos) => line.take(pos + 1) + seq![' '] + redacted(),
            None => redacted(),
        }
    } else {
        redact_tokens_spec(line)
    }
}

/// The whole text, redacted line by line and joined with `\n`.
pub open spec fn redact_secrets_spec(text: Seq<char>) -> Seq<char> {
    join(lines(text).map_values(|l: Seq<char>| redact_line_spec(l)), seq!['\n'])
}

fn sensitive_key_list() -> (v: Vec<&'static str>)
    ensures
        str_views(v@) == sensitive_keys(),
{
    let v = vec![
        "api_key",
        "apikey",
        "api-key",
        "secret",
        "password",
        "passwd",
        "passphrase",
        "token",
        "authorization",
        "auth_token",
        "access_key",
        "private_key",
        "client_secret",
        "connection_string",
    ];
    assert(str_views(v@) =~= sensitive_keys());
    v
}

fn token_prefix_list() -> (v: Vec<&'static str>)
    ensures
        str_views(v@) == token_prefixes(),
{
    let v = vec!["sk-", "ghp_", "gho_", "ghs_", "github_pat_", "xoxb-", "xoxp-"];
    assert(str_views(v@) =~= token_prefixes());
    v
}

/// Whether a token looks like a credential.
pub fn looks_like_secret_token(token: &[char]) -> (r: bool)
    ensures
        r == looks_like_secret(token@),
{
    let trimmed = strip_chars(token, CharClass::NonTokenChar);
    if !utf8_len_at_least(trimmed.as_slice(), 12) {
        return false;
    }
    let lower = ascii_lower_chars(trimmed.as_slice());
    let prefixes = token_prefix_list();
    starts_with_any_str(lower.as_slice(), prefixes.as_slice())
}

/// Replaces every space-separated token that looks like a credential.
pub fn redact_tokens(line: &[char]) -> (r: Vec<char>)
    ensures
        r@ == redact_tokens_spec(line@),
{
    let tokens = split_chars(line, ' ');
    let ghost pieces = split_char(line@, ' ');
    let marker = chars_of("[REDACTED]");
    let mut out: Vec<Vec<char>> = Vec::new();
    let mut i: usize = 0;
    while i < tokens.len()
        invariant
            i <= tokens@.len(),
            views(tokens@) == pieces,
            marker@ == redacted(),
            views(out@) == pieces.take(i as int).map_values(|t: Seq<char>| redact_token(t)),
        decreases tokens.len() - i,
    {
        let token = &tokens[i];
        let piece = if looks_like_secret_token(token.as_slice()) {
            slice_vec(marker.as_slice(), 0, marker.len())
        } else {
            slice_vec(token.as_slice(), 0, token.len())
        };
        assert(marker@.subrange(0, marker@.len() as int) == marker@);
        assert(token@.subrange(0, token@.len() as int) == token@);
        assert(piece@ == redact_token(pieces[i as int]));
        let ghost before = out@;
        out.push(piece);
        assert(views(out@) == views(before).push(redact_token(pieces[i as int])));
        assert(pieces.take(i + 1) == pieces.take(i as int).push(pieces[i as int]));
        i = i + 1;
    }
    assert(pieces.take(tokens@.len() as int) == pieces);
    let sep = chars_of(" ");
    assert(sep@ == seq![' ']) by {
        reveal_strlit(" ");
    }
    join_chars(&out, sep.as_slice())
}

/// Redacts one line.
pub fn redact_line(line: &[char]) -> (r: Vec<char>)
    ensures
        r@ == redact_line_spec(line@),
{
    let lower = ascii_lower_chars(line);
    let keys = sensitive_key_list();
    if contains_any_str(lower.as_slice(), keys.as_slice()) {
        let marker = chars_of("[REDACTED]");
        match rfind_class_chars(line, CharClass::KeyValueSeparator) {
            Some(pos) => {
                assert(pos < line.len());
                let mut head = slice_vec(line, 0, pos + 1);
                assert(line@.subrange(0, pos + 1) == line@.take(pos + 1));
                head.push(' ');
                extend_chars(&mut head, marker.as_slice());
                head
            },
            None => marker,
        }
    } else {
        redact_tokens(line)
    }
}

/// Redacts suspected secrets line by line, keeping all other content and the
/// line structure.
pub fn redact_secrets(text: &str) -> (r: String)
    ensures
        r@ == redact_secrets_spec(text@),
{
    let chars = chars_of(text);
    let all = lines_of(chars.as_slice());
    let ghost ls = lines(text@);
    let mut out: Vec<Vec<char>> = Vec::new();
    let mut i: usize = 0;
    while i < all.len()
        invariant
            i <= all@.len(),
            views(all@) == ls,
            views(out@) == ls.take(i as int).map_values(|l: Seq<char>| redact_line_spec(l)),
        decreases all.len() - i,
    {
        let red = redact_line(all[i].as_slice());
        let ghost before = out@;
        out.push(red);
        assert(views(out@) == views(before).push(redact_line_spec(ls[i as int])));
        assert(ls.take(i + 1) == ls.take(i as int).push(ls[i as int]));
        i = i + 1;
    }
    assert(ls.take(all@.len() as int) == ls);
    let joined = join_chars(&out, &['\n']);
    assert(['\n']@ == seq!['\n']);
    string_of(joined.as_slice())
}

/// A line whose lowercase form names no sensitive key and none of whose
/// tokens looks like a credential comes out of redaction unchanged.
pub proof fn lemma_ordinary_line_untouched(line: Seq<char>)
    requires
        !contains_any(ascii_lower(line), sensitive_keys()),
        forall|i: int|
            0 <= i < split_char(line, ' ').len() ==> !looks_like_secret(
                #[trigger] split_char(line, ' ')[i],
            ),
    ensures
        redact_line_spec(line) == line,
{
    let pieces = split_char(line, ' ');
    assert(pieces.map_values(|t: Seq<char>| redact_token(t)) == pieces);
    lemma_split_join(line, ' ');
}

/// Text in which no line names a sensitive key and no token looks like a
/// credential is returned as its lines joined with `\n`: nothing is hidden.
pub proof fn lemma_ordinary_text_untouched(text: Seq<char>)
    requires
        forall|k: int|
            0 <= k < lines(text).len() ==> !contains_any(
                ascii_lower(#[trigger] lines(text)[k]),
                sensitive_keys(),
            ),
        forall|k: int, i: int|
            0 <= k < lines(text).len() && 0 <= i < split_char(lines(text)[k], ' ').len()
                ==> !looks_like_secret(#[trigger] split_char(#[trigger] lines(text)[k], ' ')[i]),
    ensures
        redact_secrets_spec(text) == join(lines(text), seq!['\n']),
{
    let ls = lines(text);
    assert forall|k: int| 0 <= k < ls.len() implies redact_line_spec(#[trigger] ls[k]) == ls[k] by {
        lemma_ordinary_line_untouched(ls[k]);
    }
    assert(ls.map_values(|l: Seq<char>| redact_line_spec(l)) == ls);
}

/// A line naming a sensitive key and holding a `=` or `:` keeps everything up
/// to the last separator, followed by ` [REDACTED]`; what came after the
/// separator is gone.
pub proof fn lemma_sensitive_value_hidden(line: Seq<char>)
    requires
        contains_any(ascii_lower(line), sensitive_keys()),
        rfind_class(line, CharClass::KeyValueSeparator) is Some,
    ensures
        ({
            let pos = rfind_class(line, CharClass::KeyValueSeparator)->0;
            redact_line_spec(line) == line.take(pos + 1) + seq![' '] + redacted()
        }),
{
}


proof fn lemma_rfind_in_bounds(s: Seq<char>, k: CharClass)
    ensures
        rfind_class(s, k) matches Some(i) ==> 0 <= i < s.len(),
    decreases s.len(),
{
    if s.len() > 0 {
        lemma_rfind_in_bounds(s.drop_last(), k);
    }
}

proof fn lemma_redacted_has_no_newline()
    ensures
        !redacted().contains('\n'),
{
    reveal_strlit("[REDACTED]");
    assert forall|i: int| 0 <= i < redacted().len() implies redacted()[i] != '\n' by {}
}

/// A line without a newline is redacted into a line without a newline.
proof fn lemma_redacted_line_is_one_line(line: Seq<char>)
    requires
        !line.contains('\n'),
    ensures
        !redact_line_spec(line).contains('\n'),
{
    lemma_redacted_has_no_newline();
    if contains_any(ascii_lower(line), sensitive_keys()) {
        lemma_rfind_in_bounds(line, CharClass::KeyValueSeparator);
        match rfind_class(line, CharClass::KeyValueSeparator) {
            Some(pos) => {
                let t = line.take(pos + 1) + seq![' '] + redacted();
                if t.contains('\n') {
                    let i = choose|i: int| 0 <= i < t.len() && t[i] == '\n';
                    if i < pos + 1 {
                        assert(line[i] == '\n');
                    } else if i > pos + 1 {
                        assert(redacted()[i - pos - 2] == '\n');
                    }
                }
            },
            None => {},
        }
    } else {
        crate::text::lemma_split_pieces(line, ' ');
        let pieces = split_char(line, ' ');
        let tokens = pieces.map_values(|t: Seq<char>| redact_token(t));
        assert forall|k: int| 0 <= k < tokens.len() implies !(#[trigger] tokens[k]).contains('\n') by {
            if pieces[k].contains('\n') {
                assert(line.contains('\n'));
            }
        }
        assert(!seq![' '].contains('\n')) by {
            if seq![' '].contains('\n') {
                let i = choose|i: int| 0 <= i < 1 && seq![' '][i] == '\n';
            }
        }
        crate::text::lemma_join_without(tokens, seq![' '], '\n');
    }
}

/// Redaction keeps the text's lines: split at newlines, the result has as
/// many lines as the text, and each is the corresponding line redacted on its
/// own (for a non-empty text without carriage returns that does not end with
/// a newline).
pub proof fn lemma_redaction_keeps_lines(text: Seq<char>)
    requires
        text.len() > 0,
        !text.contains('\r'),
        text.last() != '\n',
    ensures
        split_char(redact_secrets_spec(text), '\n') == split_char(text, '\n').map_values(
            |l: Seq<char>| redact_line_spec(l),
        ),
{
    crate::text::lemma_lines_are_pieces(text);
    crate::text::lemma_split_pieces(text, '\n');
    let p = split_char(text, '\n');
    let q = p.map_values(|l: Seq<char>| redact_line_spec(l));
    assert forall|k: int| 0 <= k < q.len() implies !(#[trigger] q[k]).contains('\n') by {
        if p[k].contains('\n') {
            let i = choose|i: int| 0 <= i < p[k].len() && p[k][i] == '\n';
        }
        lemma_redacted_line_is_one_line(p[k]);
    }
    crate::text::lemma_split_of_join(q, '\n');
}

proof fn lemma_no_separator_found(s: Seq<char>)
    requires
        !s.contains('='),
        !s.contains(':'),
    ensures
        rfind_class(s, CharClass::KeyValueSeparator) is None,
    decreases s.len(),
{
    if s.len() > 0 {
        assert(s.last() == s[s.len() - 1]);
        assert(!s.drop_last().contains('=')) by {
            if s.drop_last().contains('=') {
                let i = choose|i: int| 0 <= i < s.drop_last().len() && s.drop_last()[i] == '=';
                assert(s[i] == '=');
            }
        }
        assert(!s.drop_last().contains(':')) by {
            if s.drop_last().contains(':') {
                let i = choose|i: int| 0 <= i < s.drop_last().len() && s.drop_last()[i] == ':';
                assert(s[i] == ':');
            }
        }
        lemma_no_separator_found(s.drop_last());
    }
}

proof fn lemma_sensitive_keys_nonempty()
    ensures
        forall|i: int| 0 <= i < sensitive_keys().len() ==> (#[trigger] sensitive_keys()[i]).len() > 0,
{
    reveal_strlit("api_key");
    reveal_strlit("apikey");
    reveal_strlit("api-key");
    reveal_strlit("secret");
    reveal_strlit("password");
    reveal_strlit("passwd");
    reveal_strlit("passphrase");
    reveal_strlit("token");
    reveal_strlit("authorization");
    reveal_strlit("auth_token");
    reveal_strlit("access_key");
    reveal_strlit("private_key");
    reveal_strlit("client_secret");
    reveal_strlit("connection_string");
}

/// A line that mentions a sensitive key (in any letter case) but has no `=`
/// or `:` to part the key from its value is hidden whole: it becomes exactly
/// `[REDACTED]`.
pub proof fn lemma_sensitive_line_without_separator_is_hidden(line: Seq<char>)
    requires
        exists|i: int| 0 <= i < sensitive_keys().len() && contains(ascii_lower(line), #[trigger] sensitive_keys()[i]),
        !line.contains('='),
        !line.contains(':'),
    ensures
        redact_line_spec(line) == "[REDACTED]"@,
{
    lemma_no_separator_found(line);
}

/// A one-line text that mentions a sensitive key but has no `=` or `:` is
/// redacted to exactly `[REDACTED]`: nothing of it leaves.
pub proof fn lemma_sensitive_text_without_separator_is_hidden(text: Seq<char>)
    requires
        exists|i: int| 0 <= i < sensitive_keys().len() && contains(ascii_lower(text), #[trigger] sensitive_keys()[i]),
        !text.contains('='),
        !text.contains(':'),
        !text.contains('\n'),
        !text.contains('\r'),
    ensures
        redact_secrets_spec(text) == "[REDACTED]"@,
{
    let i = choose|i: int| 0 <= i < sensitive_keys().len() && contains(ascii_lower(text), #[trigger] sensitive_keys()[i]);
    assert(text.len() > 0) by {
        if text.len() == 0 {
            lemma_sensitive_keys_nonempty();
            crate::text::lemma_find_from_bounds(ascii_lower(text), sensitive_keys()[i], 0);
        }
    }
    assert(text.last() != '\n') by {
        assert(text[text.len() - 1] == text.last());
    }
    crate::text::lemma_lines_are_pieces(text);
    crate::text::lemma_split_of_join(seq![text], '\n');
    assert(join(seq![text], seq!['\n']) == text);
    assert(lines(text) == seq![text]);
    lemma_sensitive_line_without_separator_is_hidden(text);
    assert(lines(text).map_values(|l: Seq<char>| redact_line_spec(l)) =~= seq!["[REDACTED]"@]);
}

} // verus!
