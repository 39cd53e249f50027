//! The scanner: source text to an ordered sequence of tokens.
use vstd::prelude::*;
use crate::token::{keyword, keyword_of, TokenInfo, TokenType};
use vstd::std_specs::iter::IteratorSpec;

verus! {

/// What a token holds, as plain values.
pub struct TokenView {
    pub kind: TokenType,
    pub line: int,
    pub text: Seq<char>,
    pub number: Option<u64>,
}

impl View for TokenInfo {
    type V = TokenView;

    open spec fn view(&self) -> TokenView {
        TokenView {
            kind: self.token_type,
            line: self.line as int,
            text: self.lexeme@,
            number: self.number,
        }
    }
}

pub open spec fn is_digit(c: char) -> bool {
    '0' <= c <= '9'
}

pub open spec fn is_alpha(c: char) -> bool {
    ('a' <= c <= 'z') || ('A' <= c <= 'Z')
}

pub open spec fn is_alnum(c: char) -> bool {
    is_alpha(c) || is_digit(c)
}

/// The characters of Unicode's White_Space property.
pub open spec fn is_white(c: char) -> bool {
    ('\u{9}' <= c <= '\u{d}') || c == ' ' || c == '\u{85}' || c == '\u{a0}' || c == '\u{1680}'
        || ('\u{2000}' <= c <= '\u{200a}') || c == '\u{2028}' || c == '\u{2029}'
        || c == '\u{202f}' || c == '\u{205f}' || c == '\u{3000}'
}

/// The kind of a token that is always one character long.
pub open spec fn single_kind(c: char) -> Option<TokenType> {
    if c == '.' {
        Some(TokenType::Dot)
    } else if c == ',' {
        Some(TokenType::Comma)
    } else if c == ';' {
        Some(TokenType::Semicolon)
    } else if c == '+' {
        Some(TokenType::Plus)
    } else if c == '-' {
        Some(TokenType::Minus)
    } else if c == '*' {
        Some(TokenType::Star)
    } else if c == '(' {
        Some(TokenType::LeftParen)
    } else if c == ')' {
        Some(TokenType::RightParen)
    } else if c == '{' {
        Some(TokenType::LeftBrace)
    } else if c == '}' {
        Some(TokenType::RightBrace)
    } else {
        None
    }
}

/// For `!`, `=`, `<` and `>`: the kind alone, and the kind when `=` follows.
pub open spec fn pair_kinds(c: char) -> Option<(TokenType, TokenType)> {
    if c == '!' {
        Some((TokenType::Bang, TokenType::BangEqual))
    } else if c == '=' {
        Some((TokenType::Equal, TokenType::EqualEqual))
    } else if c == '<' {
        Some((TokenType::Less, TokenType::LessEqual))
    } else if c == '>' {
        Some((TokenType::Greater, TokenType::GreaterEqual))
    } else {
        None
    }
}

/// How many letters or digits start at `i`.
pub open spec fn alnum_run(s: Seq<char>, i: int) -> nat
    decreases s.len() - i,
{
    if 0 <= i < s.len() && is_alnum(s[i]) {
        1 + alnum_run(s, i + 1)
    } else {
        0
    }
}

/// How many digits start at `i`.
pub open spec fn digit_run(s: Seq<char>, i: int) -> nat
    decreases s.len() - i,
{
    if 0 <= i < s.len() && is_digit(s[i]) {
        1 + digit_run(s, i + 1)
    } else {
        0
    }
}

/// How many characters other than `stop` start at `i`.
pub open spec fn run_until(s: Seq<char>, i: int, stop: char) -> nat
    decreases s.len() - i,
{
    if 0 <= i < s.len() && s[i] != stop {
        1 + run_until(s, i + 1, stop)
    } else {
        0
    }
}

/// The number of line breaks in `s`.
pub open spec fn newlines(s: Seq<char>) -> int
    decreases s.len(),
{
    if s.len() == 0 {
        0
    } else {
        newlines(s.drop_last()) + if s.last() == '\n' { 1int } else { 0int }
    }
}

/// The outcome of scanning one lexeme that starts at `start`.
pub struct Lexed {
    /// Where the next lexeme starts.
    pub next: int,
    /// The line counter after this lexeme.
    pub line: int,
    pub token: Option<TokenView>,
    /// A character that starts no lexeme.
    pub stray: Option<char>,
    /// A string literal that runs to the end of the input.
    pub unterminated: bool,
}

pub open spec fn emit(next: int, line: int, kind: TokenType, text: Seq<char>) -> Lexed {
    Lexed {
        next,
        line,
        token: Some(TokenView { kind, line, text, number: None }),
        stray: None,
        unterminated: false,
    }
}

pub open spec fn skip(next: int, line: int) -> Lexed {
    Lexed { next, line, token: None, stray: None, unterminated: false }
}

/// Where a numeric literal that starts at `i` ends: digits, then a `.` only if a
/// digit follows it, then digits.
pub open spec fn number_end(s: Seq<char>, i: int) -> int {
    let e = i + digit_run(s, i);
    if e + 1 < s.len() && s[e] == '.' && is_digit(s[e + 1]) {
        e + 1 + digit_run(s, e + 1)
    } else {
        e
    }
}

/// Scans the lexeme that starts at `i`, on line `line`.
pub open spec fn lex_one(s: Seq<char>, i: int, line: int) -> Lexed {
    let c = s[i];
    if is_white(c) {
        skip(i + 1, if c == '\n' { line + 1 } else { line })
    } else if single_kind(c) is Some {
        emit(i + 1, line, single_kind(c)->Some_0, seq![c])
    } else if pair_kinds(c) is Some {
        if i + 1 < s.len() && s[i + 1] == '=' {
            emit(i + 2, line, pair_kinds(c)->Some_0.1, seq![c, '='])
        } else {
            emit(i + 1, line, pair_kinds(c)->Some_0.0, seq![c])
        }
    } else if c == '/' {
        if i + 1 < s.len() && s[i + 1] == '/' {
            skip(i + 2 + run_until(s, i + 2, '\n'), line)
        } else {
            emit(i + 1, line, TokenType::Slash, seq![c])
        }
    } else if c == '"' {
        let e = i + 1 + run_until(s, i + 1, '"');
        let text = s.subrange(i + 1, e);
        if e >= s.len() {
            Lexed {
                next: e,
                line: line + newlines(text),
                token: None,
                stray: None,
                unterminated: true,
            }
        } else {
            emit(e + 1, line + newlines(text), TokenType::String, text)
        }
    } else if is_digit(c) {
        let e = number_end(s, i);
        emit(e, line, TokenType::Number, s.subrange(i, e))
    } else if is_alpha(c) {
        let e = i + 1 + alnum_run(s, i + 1);
        let w = s.subrange(i, e);
        emit(
            e,
            line,
            if keyword_of(w) is Some { keyword_of(w)->Some_0 } else { TokenType::Identifier },
            w,
        )
    } else {
        Lexed { next: i + 1, line, token: None, stray: Some(c), unterminated: false }
    }
}

proof fn lemma_alnum_run_bound(s: Seq<char>, i: int)
    requires
        0 <= i <= s.len(),
    ensures
        alnum_run(s, i) <= s.len() - i,
    decreases s.len() - i,
{
    if i < s.len() {
        lemma_alnum_run_bound(s, i + 1);
    }
}

proof fn lemma_digit_run_bound(s: Seq<char>, i: int)
    requires
        0 <= i <= s.len(),
    ensures
        digit_run(s, i) <= s.len() - i,
    decreases s.len() - i,
{
    if i < s.len() {
        lemma_digit_run_bound(s, i + 1);
    }
}

proof fn lemma_run_until_bound(s: Seq<char>, i: int, stop: char)
    requires
        0 <= i <= s.len(),
    ensures
        run_until(s, i, stop) <= s.len() - i,
    decreases s.len() - i,
{
    if i < s.len() {
        lemma_run_until_bound(s, i + 1, stop);
    }
}

/// Every lexeme moves the scan forward, and not past the end of the input.
pub proof fn lemma_lex_one_advances(s: Seq<char>, i: int, line: int)
    requires
        0 <= i < s.len(),
    ensures
        i < lex_one(s, i, line).next <= s.len(),
{
    lemma_alnum_run_bound(s, i + 1);
    lemma_digit_run_bound(s, i);
    lemma_run_until_bound(s, i + 1, '"');
    if i + 2 <= s.len() {
        lemma_run_until_bound(s, i + 2, '\n');
    }
    let e = i + digit_run(s, i);
    if e + 1 < s.len() {
        lemma_digit_run_bound(s, e + 1);
    }
}

/// The whole outcome of scanning from `i` on.
pub struct Scanned {
    pub tokens: Seq<TokenView>,
    /// Characters that start no lexeme, each with its line, in source order.
    pub strays: Seq<(char, int)>,
    /// The line on which an unterminated string literal stopped the scan.
    pub unterminated: Option<int>,
}

pub open spec fn opt_seq<T>(o: Option<T>) -> Seq<T> {
    if o is Some {
        seq![o->Some_0]
    } else {
        Seq::empty()
    }
}

pub open spec fn eof_token(line: int) -> TokenView {
    TokenView { kind: TokenType::EOF, line, text: Seq::empty(), number: None }
}

/// Scans `s` from position `i`, on line `line`: the tokens of each lexeme in
/// order, then the end-of-input token.
pub open spec fn scan_from(s: Seq<char>, i: int, line: int) -> Scanned
    decreases s.len() - i,
{
    if i < 0 || i >= s.len() {
        Scanned { tokens: seq![eof_token(line)], strays: Seq::empty(), unterminated: None }
    } else {
        let l = lex_one(s, i, line);
        if l.unterminated {
            Scanned { tokens: Seq::empty(), strays: Seq::empty(), unterminated: Some(l.line) }
        } else if l.next <= i || l.next > s.len() {
            // Never taken: a lexeme moves forward within the input (lemma_lex_one_advances).
            Scanned { tokens: Seq::empty(), strays: Seq::empty(), unterminated: None }
        } else {
            let rest = scan_from(s, l.next, l.line);
            Scanned {
                tokens: opt_seq(l.token) + rest.tokens,
                strays: (if l.stray is Some {
                    seq![(l.stray->Some_0, line)]
                } else {
                    Seq::empty()
                }) + rest.strays,
                unterminated: rest.unterminated,
            }
        }
    }
}

/// The scan of a whole source text.
pub open spec fn scan_spec(s: Seq<char>) -> Scanned {
    scan_from(s, 0, 1)
}

/// The tokens' views, in order.
pub open spec fn views(ts: Seq<TokenInfo>) -> Seq<TokenView> {
    ts.map_values(|t: TokenInfo| t@)
}

/// The stray characters' records, with lines as integers.
pub open spec fn stray_views(v: Seq<(char, usize)>) -> Seq<(char, int)> {
    v.map_values(|p: (char, usize)| (p.0, p.1 as int))
}

/// A string literal that reaches the end of the input, on the line where the input ends.
#[derive(Debug, Clone, Copy, PartialEq, Eq)]
pub struct ScanError {
    pub line: usize,
}

/// Relies on `impl FromIterator<&char> for String`, reached by `collect` on a slice
/// iterator: the string holds the characters in order.
#[verifier::external_body]
pub(crate) fn text_of(v: &Vec<char>, from: usize, to: usize) -> (r: String)
    requires
        from <= to <= v@.len(),
    ensures
        r@ == v@.subrange(from as int, to as int),
{
    v[from..to].iter().collect()
}

/// The characters of a string, in order.
pub(crate) fn chars_of(s: &String) -> (r: Vec<char>)
    ensures
        r@ == s@,
{
    let text = s.as_str();
    let mut it = text.chars();
    let mut v: Vec<char> = Vec::new();
    proof {
        vstd::string::axiom_spec_iter(text);
    }
    loop
        invariant
            v@ + it.remaining() == s@,
            it.obeys_prophetic_iter_laws(),
        ensures
            v@ == s@,
        decreases s@.len() - v@.len(),
    {
        let ghost before = it;
        let next = it.next();
        proof {
            vstd::string::next_postcondition(&before, &it, next);
        }
        match next {
            Some(c) => {
                assert(v@.push(c) + it.remaining() =~= v@ + before.remaining());
                v.push(c);
            },
            None => {
                assert(v@ =~= s@);
                break;
            },
        }
    }
    v
}

/// Scans a source text from left to right with a window from `start` to `current`.
pub struct Scanner {
    source: Vec<char>,
    pub tokens: Vec<TokenInfo>,
    /// Characters that start no lexeme, each with its line.
    pub unexpected: Vec<(char, usize)>,
    start: usize,
    current: usize,
    line: usize,
}

impl Scanner {
    /// The characters being scanned.
    pub closed spec fn source_view(&self) -> Seq<char> {
        self.source@
    }

    /// The views of the tokens scanned so far.
    pub closed spec fn token_views(&self) -> Seq<TokenView> {
        views(self.tokens@)
    }

    /// The characters recorded as starting no lexeme so far.
    pub closed spec fn stray_list(&self) -> Seq<(char, int)> {
        stray_views(self.unexpected@)
    }

    /// Nothing has been scanned yet.
    pub closed spec fn is_fresh(&self) -> bool {
        &&& self.tokens@.len() == 0
        &&& self.unexpected@.len() == 0
        &&& self.current == 0
        &&& self.line == 1
    }

    pub fn new(source: &String) -> (r: Self)
        ensures
            r.source_view() == source@,
            r.is_fresh(),
    {
        Scanner {
            source: chars_of(source),
            tokens: Vec::new(),
            unexpected: Vec::new(),
            start: 0,
            current: 0,
            line: 1,
        }
    }

    fn alnum_end(&self, from: usize) -> (r: usize)
        requires
            from <= self.source@.len(),
        ensures
            r == from + alnum_run(self.source@, from as int),
            r <= self.source@.len(),
    {
        let mut k = from;
        while k < self.source.len() && alnum(self.source[k])
            invariant
                from <= k <= self.source@.len(),
                from + alnum_run(self.source@, from as int) == k + alnum_run(
                    self.source@,
                    k as int,
                ),
            decreases self.source@.len() - k,
        {
            k = k + 1;
        }
        k
    }

    fn digits_end(&self, from: usize) -> (r: usize)
        requires
            from <= self.source@.len(),
        ensures
            r == from + digit_run(self.source@, from as int),
            r <= self.source@.len(),
    {
        let mut k = from;
        while k < self.source.len() && digit(self.source[k])
            invariant
                from <= k <= self.source@.len(),
                from + digit_run(self.source@, from as int) == k + digit_run(
                    self.source@,
                    k as int,
                ),
            decreases self.source@.len() - k,
        {
            k = k + 1;
        }
        k
    }

    fn until(&self, from: usize, stop: char) -> (r: usize)
        requires
            from <= self.source@.len(),
        ensures
            r == from + run_until(self.source@, from as int, stop),
            r <= self.source@.len(),
    {
        let mut k = from;
        while k < self.source.len() && self.source[k] != stop
            invariant
                from <= k <= self.source@.len(),
                from + run_until(self.source@, from as int, stop) == k + run_until(
                    self.source@,
                    k as int,
                    stop,
                ),
            decreases self.source@.len() - k,
        {
            k = k + 1;
        }
        k
    }

    /// The number of line breaks in `source[from..to]`.
    fn count_lines(&self, from: usize, to: usize) -> (r: usize)
        requires
            from <= to <= self.source@.len(),
        ensures
            r == newlines(self.source@.subrange(from as int, to as int)),
            r <= to - from,
    {
        let mut k = from;
        let mut n: usize = 0;
        assert(self.source@.subrange(from as int, from as int).len() == 0);
        while k < to
            invariant
                from <= k <= to <= self.source@.len(),
                n <= k - from,
                n == newlines(self.source@.subrange(from as int, k as int)),
            decreases to - k,
        {
            assert(self.source@.subrange(from as int, k + 1).drop_last() =~= self.source@.subrange(
                from as int,
                k as int,
            ));
            if self.source[k] == '\n' {
                n = n + 1;
            }
            k = k + 1;
        }
        n
    }

    fn add_token(&mut self, kind: TokenType, from: usize, to: usize)
        requires
            from <= to <= old(self).source@.len(),
        ensures
            final(self).source == old(self).source,
            final(self).unexpected == old(self).unexpected,
            final(self).current == old(self).current,
            final(self).line == old(self).line,
            views(final(self).tokens@) == views(old(self).tokens@) + seq![
                TokenView {
                    kind,
                    line: old(self).line as int,
                    text: old(self).source@.subrange(from as int, to as int),
                    number: None,
                },
            ],
    {
        let t = TokenInfo {
            token_type: kind,
            line: self.line,
            lexeme: text_of(&self.source, from, to),
            number: None,
        };
        self.tokens.push(t);
        assert(views(self.tokens@) =~= views(old(self).tokens@) + seq![t@]);
    }

    /// The invariant of a scan in progress.
    pub closed spec fn in_progress(&self) -> bool {
        &&& self.current <= self.source@.len()
        &&& 1 <= self.line <= self.current + 1
        &&& self.source@.len() < usize::MAX
    }

    /// Scans the tokens of the whole source, then the end-of-input token. Characters
    /// that start no lexeme are recorded in `unexpected` and skipped; an unterminated
    /// string literal stops the scan with an error.
    pub fn scan_tokens(&mut self) -> (r: Result<(), ScanError>)
        requires
            old(self).is_fresh(),
            old(self).source_view().len() < usize::MAX,
        ensures
            final(self).source_view() == old(self).source_view(),
            ({
                let sc = scan_spec(old(self).source_view());
                &&& sc.unterminated is Some ==> r is Err && r->Err_0.line == sc.unterminated->Some_0
                &&& sc.unterminated is None ==> r is Ok && final(self).token_views() == sc.tokens
                    && final(self).stray_list() == sc.strays
            }),
    {
        let ghost src = self.source@;
        assert(views(self.tokens@) =~= Seq::empty());
        assert(stray_views(self.unexpected@) =~= Seq::empty());
        while self.current < self.source.len()
            invariant
                self.source@ == src,
                old(self).source@ == src,
                self.in_progress(),
                views(self.tokens@) + scan_from(src, self.current as int, self.line as int).tokens
                    == scan_spec(src).tokens,
                stray_views(self.unexpected@) + scan_from(
                    src,
                    self.current as int,
                    self.line as int,
                ).strays == scan_spec(src).strays,
                scan_from(src, self.current as int, self.line as int).unterminated == scan_spec(
                    src,
                ).unterminated,
            decreases src.len() - self.current,
        {
            let ghost before = *self;
            let r = self.scan_token();
            let ghost l = lex_one(src, before.current as int, before.line as int);
            if r.is_err() {
                assert(scan_from(src, before.current as int, before.line as int).unterminated
                    == Some(l.line));
                return r;
            }
            assert(opt_seq(l.token) + scan_from(src, l.next, l.line).tokens == scan_from(
                src,
                before.current as int,
                before.line as int,
            ).tokens);
            assert(views(self.tokens@) + scan_from(src, self.current as int, self.line as int).tokens
                =~= views(before.tokens@) + scan_from(
                src,
                before.current as int,
                before.line as int,
            ).tokens);
            assert(stray_views(self.unexpected@) + scan_from(
                src,
                self.current as int,
                self.line as int,
            ).strays =~= stray_views(before.unexpected@) + scan_from(
                src,
                before.current as int,
                before.line as int,
            ).strays);
        }
        let ghost before = *self;
        assert(src.subrange(self.current as int, self.current as int) =~= Seq::<char>::empty());
        self.add_token(TokenType::EOF, self.current, self.current);
        assert(views(self.tokens@) =~= views(before.tokens@) + seq![eof_token(before.line as int)]);
        assert(stray_views(self.unexpected@) =~= stray_views(before.unexpected@) + Seq::empty());
        Ok(())
    }

    /// Scans the lexeme at `current`.
    fn scan_token(&mut self) -> (r: Result<(), ScanError>)
        requires
            old(self).in_progress(),
            old(self).current < old(self).source@.len(),
        ensures
            ({
                let l = lex_one(old(self).source@, old(self).current as int, old(self).line as int);
                &&& final(self).source == old(self).source
                &&& old(self).current < l.next <= old(self).source@.len()
                &&& l.unterminated ==> r is Err && r->Err_0.line == l.line
                &&& !l.unterminated ==> {
                    &&& r is Ok
                    &&& final(self).in_progress()
                    &&& final(self).current == l.next
                    &&& final(self).line == l.line
                    &&& views(final(self).tokens@) == views(old(self).tokens@) + opt_seq(l.token)
                    &&& stray_views(final(self).unexpected@) == stray_views(old(self).unexpected@)
                        + if l.stray is Some {
                        seq![(l.stray->Some_0, old(self).line as int)]
                    } else {
                        Seq::empty()
                    }
                }
            }),
    {
        let ghost s = self.source@;
        let i = self.current;
        let c = self.source[i];
        self.start = i;
        self.current = i + 1;
        if white(c) {
            if c == '\n' {
                self.line = self.line + 1;
            }
            assert(views(self.tokens@) =~= views(old(self).tokens@) + opt_seq(None::<TokenView>));
            assert(stray_views(self.unexpected@) =~= stray_views(old(self).unexpected@)
                + Seq::empty());
            return Ok(());
        }
        assert(stray_views(self.unexpected@) =~= stray_views(old(self).unexpected@)
            + Seq::empty());
        if let Some(kind) = single(c) {
            self.add_token(kind, i, i + 1);
            assert(s.subrange(i as int, i + 1) =~= seq![c]);
            return Ok(());
        }
        if let Some((one, two)) = pair(c) {
            if self.match_char('=') {
                self.add_token(two, i, i + 2);
                assert(s.subrange(i as int, i + 2) =~= seq![c, '=']);
            } else {
                self.add_token(one, i, i + 1);
                assert(s.subrange(i as int, i + 1) =~= seq![c]);
            }
            return Ok(());
        }
        if c == '/' {
            if self.match_char('/') {
                self.current = self.until(i + 2, '\n');
                assert(views(self.tokens@) =~= views(old(self).tokens@) + opt_seq(
                    None::<TokenView>,
                ));
            } else {
                self.add_token(TokenType::Slash, i, i + 1);
                assert(s.subrange(i as int, i + 1) =~= seq![c]);
            }
            return Ok(());
        }
        if c == '"' {
            return self.string();
        }
        if digit(c) {
            self.number();
            return Ok(());
        }
        if alpha(c) {
            self.identifier();
            return Ok(());
        }
        self.unexpected.push((c, self.line));
        assert(stray_views(self.unexpected@) =~= stray_views(old(self).unexpected@) + seq![
            (c, old(self).line as int),
        ]);
        assert(views(self.tokens@) =~= views(old(self).tokens@) + opt_seq(None::<TokenView>));
        Ok(())
    }

    /// Scans a string literal whose opening quote is at `start`.
    fn string(&mut self) -> (r: Result<(), ScanError>)
        requires
            old(self).in_progress(),
            old(self).start < old(self).source@.len(),
            old(self).current == old(self).start + 1,
            old(self).source@[old(self).start as int] == '"',
        ensures
            ({
                let l = lex_one(old(self).source@, old(self).start as int, old(self).line as int);
                &&& final(self).source == old(self).source
                &&& final(self).unexpected == old(self).unexpected
                &&& old(self).start < l.next <= old(self).source@.len()
                &&& l.unterminated ==> r is Err && r->Err_0.line == l.line
                &&& !l.unterminated ==> {
                    &&& r is Ok
                    &&& final(self).in_progress()
                    &&& final(self).current == l.next
                    &&& final(self).line == l.line
                    &&& views(final(self).tokens@) == views(old(self).tokens@) + opt_seq(l.token)
                }
            }),
    {
        let from = self.current;
        let e = self.until(from, '"');
        let n = self.count_lines(from, e);
        let line = self.line + n;
        if e >= self.source.len() {
            return Err(ScanError { line });
        }
        let t = TokenInfo {
            token_type: TokenType::String,
            line,
            lexeme: text_of(&self.source, from, e),
            number: None,
        };
        self.tokens.push(t);
        assert(views(self.tokens@) =~= views(old(self).tokens@) + seq![t@]);
        self.line = line;
        self.current = e + 1;
        Ok(())
    }

    /// Scans a numeric literal whose first digit is at `start`.
    fn number(&mut self)
        requires
            old(self).in_progress(),
            old(self).start < old(self).source@.len(),
            old(self).current == old(self).start + 1,
            is_digit(old(self).source@[old(self).start as int]),
        ensures
            ({
                let l = lex_one(old(self).source@, old(self).start as int, old(self).line as int);
                &&& final(self).source == old(self).source
                &&& final(self).unexpected == old(self).unexpected
                &&& final(self).in_progress()
                &&& old(self).start < l.next <= old(self).source@.len()
                &&& final(self).current == l.next
                &&& final(self).line == l.line
                &&& views(final(self).tokens@) == views(old(self).tokens@) + opt_seq(l.token)
            }),
    {
        let ghost s = self.source@;
        let i = self.start;
        assert(digit_run(s, i as int) == 1 + digit_run(s, i + 1));
        let e = self.digits_end(i + 1);
        let mut end = e;
        if e + 1 < self.source.len() && self.source[e] == '.' && digit(self.source[e + 1]) {
            end = self.digits_end(e + 1);
        }
        self.add_token(TokenType::Number, i, end);
        self.current = end;
    }

    /// Scans an identifier or keyword whose first letter is at `start`.
    fn identifier(&mut self)
        requires
            old(self).in_progress(),
            old(self).start < old(self).source@.len(),
            old(self).current == old(self).start + 1,
            is_alpha(old(self).source@[old(self).start as int]),
            !is_digit(old(self).source@[old(self).start as int]),
        ensures
            ({
                let l = lex_one(old(self).source@, old(self).start as int, old(self).line as int);
                &&& final(self).source == old(self).source
                &&& final(self).unexpected == old(self).unexpected
                &&& final(self).in_progress()
                &&& old(self).start < l.next <= old(self).source@.len()
                &&& final(self).current == l.next
                &&& final(self).line == l.line
                &&& views(final(self).tokens@) == views(old(self).tokens@) + opt_seq(l.token)
            }),
    {
        let i = self.start;
        let e = self.alnum_end(i + 1);
        let kind = match keyword(self.source.as_slice(), i, e) {
            Some(k) => k,
            None => TokenType::Identifier,
        };
        self.add_token(kind, i, e);
        self.current = e;
    }

    /// Consumes the next character if it is `expected`.
    fn match_char(&mut self, expected: char) -> (r: bool)
        ensures
            final(self).source == old(self).source,
            final(self).tokens == old(self).tokens,
            final(self).unexpected == old(self).unexpected,
            final(self).line == old(self).line,
            r == (old(self).current < old(self).source@.len() && old(self).source@[old(
                self,
            ).current as int] == expected),
            final(self).current == if r {
                old(self).current + 1
            } else {
                old(self).current as int
            },
    {
        if self.current >= self.source.len() {
            return false;
        }
        if self.source[self.current] != expected {
            return false;
        }
        self.current = self.current + 1;
        true
    }
}

fn digit(c: char) -> (r: bool)
    ensures
        r == is_digit(c),
{
    '0' <= c && c <= '9'
}

fn alpha(c: char) -> (r: bool)
    ensures
        r == is_alpha(c),
{
    ('a' <= c && c <= 'z') || ('A' <= c && c <= 'Z')
}

fn alnum(c: char) -> (r: bool)
    ensures
        r == is_alnum(c),
{
    alpha(c) || digit(c)
}

fn white(c: char) -> (r: bool)
    ensures
        r == is_white(c),
{
    ('\u{9}' <= c && c <= '\u{d}') || c == ' ' || c == '\u{85}' || c == '\u{a0}' || c
        == '\u{1680}' || ('\u{2000}' <= c && c <= '\u{200a}') || c == '\u{2028}' || c
        == '\u{2029}' || c == '\u{202f}' || c == '\u{205f}' || c == '\u{3000}'
}

fn single(c: char) -> (r: Option<TokenType>)
    ensures
        r == single_kind(c),
{
    if c == '.' {
        Some(TokenType::Dot)
    } else if c == ',' {
        Some(TokenType::Comma)
    } else if c == ';' {
        Some(TokenType::Semicolon)
    } else if c == '+' {
        Some(TokenType::Plus)
    } else if c == '-' {
        Some(TokenType::Minus)
    } else if c == '*' {
        Some(TokenType::Star)
    } else if c == '(' {
        Some(TokenType::LeftParen)
    } else if c == ')' {
        Some(TokenType::RightParen)
    } else if c == '{' {
        Some(TokenType::LeftBrace)
    } else if c == '}' {
        Some(TokenType::RightBrace)
    } else {
        None
    }
}

fn pair(c: char) -> (r: Option<(TokenType, TokenType)>)
    ensures
        r == pair_kinds(c),
{
    if c == '!' {
        Some((TokenType::Bang, TokenType::BangEqual))
    } else if c == '=' {
        Some((TokenType::Equal, TokenType::EqualEqual))
    } else if c == '<' {
        Some((TokenType::Less, TokenType::LessEqual))
    } else if c == '>' {
        Some((TokenType::Greater, TokenType::GreaterEqual))
    } else {
        None
    }
}

} // verus!
