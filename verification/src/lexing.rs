use vstd::prelude::*;

verus! {

#[verifier::external_type_specification]
#[verifier::external_body]
pub struct ExTokenStream(proc_macro2::TokenStream);

#[verifier::external_type_specification]
#[verifier::external_body]
pub struct ExLexError(proc_macro2::LexError);

/// Tokens read from a text, with the text they were read from. Only
/// [`lex_tokens`] makes one, so the text is the one the tokens came from.
pub struct LexedText {
    tokens: proc_macro2::TokenStream,
    source: Ghost<Seq<char>>,
}

impl LexedText {
    /// The text that the tokens were read from.
    pub closed spec fn source(&self) -> Seq<char> {
        self.source@
    }

    /// The tokens.
    pub closed spec fn token_stream(&self) -> proc_macro2::TokenStream {
        self.tokens
    }

    /// The tokens.
    pub fn tokens(&self) -> (tokens: &proc_macro2::TokenStream)
        ensures
            *tokens == self.token_stream(),
    {
        &self.tokens
    }
}

/// Whether `c` may stand in an identifier: an ASCII letter or digit, or `_`.
pub open spec fn is_ident_char(c: char) -> bool {
    ('a' <= c && c <= 'z') || ('A' <= c && c <= 'Z') || ('0' <= c && c <= '9') || c == '_'
}

/// Whether `s` is a plain path such as `Controller2::new`: ASCII letters,
/// digits, `_` and `:`, where every digit follows a letter, digit or `_`
/// (so that it stands inside an identifier, never at a token's start).
pub open spec fn is_path_text(s: Seq<char>) -> bool {
    forall|i: int|
        0 <= i < s.len() ==> {
            &&& is_ident_char(#[trigger] s[i]) || s[i] == ':'
            &&& ('0' <= s[i] && s[i] <= '9') ==> i > 0 && is_ident_char(s[i - 1])
        }
}

/// Whether `s` opens a parenthesis that it never closes: a plain path, a
/// `(`, and a plain path again, such as `Controller::new(`.
pub open spec fn is_unclosed_group(s: Seq<char>) -> bool {
    exists|k: int|
        0 <= k < s.len() && #[trigger] s[k] == '(' && is_path_text(s.take(k)) && is_path_text(s.skip(k + 1))
}

/// Whether `s` opens a string literal that it never closes: a `"` first
/// and no other `"` after it.
pub open spec fn is_unterminated_string(s: Seq<char>) -> bool {
    &&& s.len() > 0
    &&& s[0] == '"'
    &&& forall|i: int| 1 <= i < s.len() ==> #[trigger] s[i] != '"'
}

/// Whether proc_macro2's own lexer (its fallback, which reads the text
/// alone) accepts `source` as Rust tokens.
pub uninterp spec fn fallback_lexes(source: Seq<char>) -> bool;

/// Reads `source` as Rust tokens with `proc_macro2::TokenStream::from_str`
/// (through `str::parse`). proc_macro2's own lexer reads the text first; a
/// text it rejects is an error. Inside a procedural macro the compiler's
/// lexer then decides, elsewhere proc_macro2's own verdict stands. Claimed:
/// the tokens returned are read from `source`; success means that
/// proc_macro2's own lexer accepted the text; a plain path (identifiers and
/// `::`/`:` punctuation) is accepted by both lexers; text that opens a
/// string literal, or a parenthesis, and never closes it is rejected by
/// proc_macro2's own lexer. Nothing is claimed of what the tokens are, nor
/// of the compiler's verdict on other texts.
#[verifier::external_body]
pub(crate) fn lex_tokens(source: &str) -> (r: Result<LexedText, proc_macro2::LexError>)
    ensures
        r matches Ok(lexed) ==> lexed.source() == source@,
        r is Ok ==> fallback_lexes(source@),
        is_path_text(source@) ==> r is Ok,
        is_unterminated_string(source@) ==> r is Err,
        is_unclosed_group(source@) ==> r is Err,
{
    match source.parse::<proc_macro2::TokenStream>() {
        Ok(tokens) => Ok(LexedText { tokens, source: Ghost(source@) }),
        Err(e) => Err(e),
    }
}

} // verus!
