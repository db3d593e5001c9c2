//! The assembler front end: tokens, their recognisers, and the rules that
//! say which shapes of instruction are accepted.
use crate::instruction::{Opcode, opcode_from_mnemonic, opcode_of_mnemonic};
use crate::text::{number_at_most, parse_number, split_on_space, split_spaces};
use regex::Regex;
use vstd::prelude::*;

verus! {

#[verifier::external_type_specification]
#[verifier::external_body]
pub struct ExRegex(regex::Regex);

/// Whether `regex::Regex::new` accepts a pattern.
pub uninterp spec fn compiles(pattern: Seq<char>) -> bool;

/// The text that the group named `group` matched in the leftmost match of
/// the regex compiled from `pattern` in `haystack`, if there is a match and
/// the group took part in it.
pub uninterp spec fn capture_of(pattern: Seq<char>, haystack: Seq<char>, group: Seq<char>) -> Option<
    Seq<char>,
>;

/// Relies on `regex::Regex::new`: compiles a pattern; `None` when the
/// pattern is invalid or the compiled regex would be too large.
#[verifier::external_body]
fn compile_regex(re: &str) -> (r: Option<Regex>)
    ensures
        r is Some <==> compiles(re@),
{
    Regex::new(re).ok()
}

/// Relies on `regex::Regex::captures`, `Captures::name` and
/// `Match::as_str`: the text that the named group matched in the leftmost
/// match of the rule's regex in `s`. The regex was compiled from
/// `rule.pattern()`, which `TokenTypeRegex::new` alone sets.
#[verifier::external_body]
fn named_capture<'h>(rule: &TokenTypeRegex, s: &'h str, group: &str) -> (r: Option<&'h str>)
    ensures
        r is None <==> capture_of(rule.pattern(), s@, group@) is None,
        r matches Some(t) ==> t@ == capture_of(rule.pattern(), s@, group@)->0,
{
    match rule.regex.captures(s) {
        Some(caps) => match caps.name(group) {
            Some(m) => Some(m.as_str()),
            None => None,
        },
        None => None,
    }
}

/// The kinds of token.
#[derive(Debug, PartialEq, Eq, Structural, Copy, Clone)]
pub enum TokenType {
    Opcode,
    Register,
    IntegerOperand,
}

/// A token of assembly text.
#[derive(Debug, PartialEq, Eq, Structural, Copy, Clone)]
pub enum Token {
    Opcode(Opcode),
    Register(u8),
    IntegerOperand(i32),
}

/// Why assembly text was not accepted.
#[derive(Debug, PartialEq, Eq, Structural, Copy, Clone)]
pub enum LexError {
    /// More than an opcode and three arguments.
    TooManyArguments,
    /// No recogniser matched a piece of the text.
    NoMatchingToken,
    /// A register or integer operand is not a number that fits.
    OperandOutOfRange,
}

pub open spec fn kind_of(t: Token) -> TokenType {
    match t {
        Token::Opcode(_) => TokenType::Opcode,
        Token::Register(_) => TokenType::Register,
        Token::IntegerOperand(_) => TokenType::IntegerOperand,
    }
}

impl From<Token> for TokenType {
    fn from(v: Token) -> (r: TokenType)
        ensures
            r == kind_of(v),
    {
        match v {
            Token::Opcode(_) => TokenType::Opcode,
            Token::Register(_) => TokenType::Register,
            Token::IntegerOperand(_) => TokenType::IntegerOperand,
        }
    }
}

impl vstd::std_specs::convert::FromSpecImpl<Token> for TokenType {
    open spec fn obeys_from_spec() -> bool {
        true
    }

    open spec fn from_spec(v: Token) -> TokenType {
        kind_of(v)
    }
}

/// The token that a recogniser's captured text stands for.
pub open spec fn token_of_text(t: TokenType, text: Seq<char>) -> Result<Token, LexError> {
    match t {
        TokenType::Opcode => Ok(Token::Opcode(opcode_of_mnemonic(text))),
        TokenType::Register => match number_at_most(text, 10, 255) {
            Some(v) => Ok(Token::Register(v as u8)),
            None => Err(LexError::OperandOutOfRange),
        },
        TokenType::IntegerOperand => match number_at_most(text, 10, i32::MAX as int) {
            Some(v) => Ok(Token::IntegerOperand(v as i32)),
            None => Err(LexError::OperandOutOfRange),
        },
    }
}

/// Turns the text that a recogniser captured into a token of its kind: a
/// mnemonic, or an unsigned decimal register number (at most 255) or
/// integer operand (at most `i32::MAX`).
pub fn token_from_text(t: TokenType, text: &str) -> (r: Result<Token, LexError>)
    ensures
        r == token_of_text(t, text@),
{
    match t {
        TokenType::Opcode => Ok(Token::Opcode(opcode_from_mnemonic(text))),
        TokenType::Register => match parse_number(text, false, 255) {
            Some(v) => Ok(Token::Register(v as u8)),
            None => Err(LexError::OperandOutOfRange),
        },
        TokenType::IntegerOperand => match parse_number(text, false, 0x7fff_ffff) {
            Some(v) => {
                Ok(Token::IntegerOperand(v as i32))
            },
            None => Err(LexError::OperandOutOfRange),
        },
    }
}

/// A recogniser: a token kind and the regex whose group named after the
/// kind (`op`, `reg`, `intop`) holds the token's text.
#[derive(Debug)]
pub struct TokenTypeRegex {
    pub token_type: TokenType,
    regex: Regex,
    pattern: String,
}

impl TokenTypeRegex {
    /// The pattern that the regex was compiled from.
    pub closed spec fn pattern(&self) -> Seq<char> {
        self.pattern@
    }

    /// The kind of token that this recogniser yields.
    pub closed spec fn kind(&self) -> TokenType {
        self.token_type
    }

    /// A recogniser for `t` with pattern `re`; `None` when the pattern does
    /// not compile.
    pub fn new(t: TokenType, re: &str) -> (r: Option<Self>)
        ensures
            r is Some <==> compiles(re@),
            r matches Some(x) ==> x.kind() == t && x.pattern() == re@,
    {
        match compile_regex(re) {
            Some(regex) => Some(TokenTypeRegex { token_type: t, regex, pattern: re.to_owned() }),
            None => None,
        }
    }
}

pub open spec fn group_of(t: TokenType) -> Seq<char> {
    match t {
        TokenType::Opcode => "op"@,
        TokenType::Register => "reg"@,
        TokenType::IntegerOperand => "intop"@,
    }
}

/// The first token that the recognisers give for `src`, trying them in
/// order: the first whose group captures turns its captured text into a
/// token of its kind.
pub open spec fn first_token(rules: Seq<TokenTypeRegex>, src: Seq<char>) -> Result<Token, LexError>
    decreases rules.len(),
{
    if rules.len() == 0 {
        Err(LexError::NoMatchingToken)
    } else {
        match capture_of(rules[0].pattern(), src, group_of(rules[0].kind())) {
            Some(text) => token_of_text(rules[0].kind(), text),
            None => first_token(rules.drop_first(), src),
        }
    }
}

/// The tokens of the pieces in order, or the error of the first piece that
/// gives none.
pub open spec fn tokens_of(rules: Seq<TokenTypeRegex>, pieces: Seq<Seq<char>>) -> Result<Seq<Token>, LexError>
    decreases pieces.len(),
{
    if pieces.len() == 0 {
        Ok(Seq::empty())
    } else {
        match tokens_of(rules, pieces.drop_last()) {
            Err(e) => Err(e),
            Ok(ts) => match first_token(rules, pieces.last()) {
                Ok(t) => Ok(ts.push(t)),
                Err(e) => Err(e),
            },
        }
    }
}

/// The instruction that a line of assembly denotes: at most four pieces
/// between single spaces, the first the opcode and the rest its arguments.
pub open spec fn instruction_of(rules: Seq<TokenTypeRegex>, s: Seq<char>) -> Result<AssemblerInstruction, LexError> {
    let pieces = split_on_space(s);
    if pieces.len() > 4 {
        Err(LexError::TooManyArguments)
    } else {
        match tokens_of(rules, pieces) {
            Err(e) => Err(e),
            Ok(ts) => Ok(AssemblerInstruction {
                opcode: ts[0],
                arg1: if ts.len() > 1 { Some(ts[1]) } else { None },
                arg2: if ts.len() > 2 { Some(ts[2]) } else { None },
                arg3: if ts.len() > 3 { Some(ts[3]) } else { None },
            }),
        }
    }
}

/// The name of the capture group that holds a token of kind `t`.
fn group_name(t: TokenType) -> (r: &'static str)
    ensures
        r@ == group_of(t),
{
    match t {
        TokenType::Opcode => "op",
        TokenType::Register => "reg",
        TokenType::IntegerOperand => "intop",
    }
}

/// An instruction as written: an opcode token and up to three arguments.
#[derive(Debug, PartialEq, Eq, Structural, Copy, Clone)]
pub struct AssemblerInstruction {
    pub opcode: Token,
    pub arg1: Option<Token>,
    pub arg2: Option<Token>,
    pub arg3: Option<Token>,
}

impl AssemblerInstruction {
    pub fn new(opcode: Token, arg1: Option<Token>, arg2: Option<Token>, arg3: Option<Token>) -> (r: Self)
        ensures
            r == (AssemblerInstruction { opcode, arg1, arg2, arg3 }),
    {
        AssemblerInstruction { opcode, arg1, arg2, arg3 }
    }
}

/// Whether an optional token has the kind that the rule asks for: both
/// absent, or both present with the same kind.
pub open spec fn token_fits(token: Option<Token>, token_type: Option<TokenType>) -> bool {
    match (token, token_type) {
        (None, None) => true,
        (Some(t), Some(k)) => kind_of(t) == k,
        _ => false,
    }
}

/// The accepted shape of an instruction: its opcode and the kind of each
/// argument.
#[derive(Debug, PartialEq, Eq, Structural, Copy, Clone)]
pub struct AssemblerInstructionRule {
    pub opcode: Opcode,
    pub arg1: Option<TokenType>,
    pub arg2: Option<TokenType>,
    pub arg3: Option<TokenType>,
}

impl AssemblerInstructionRule {
    pub open spec fn matches(self, inst: AssemblerInstruction) -> bool {
        &&& inst.opcode == Token::Opcode(self.opcode)
        &&& token_fits(inst.arg1, self.arg1)
        &&& token_fits(inst.arg2, self.arg2)
        &&& token_fits(inst.arg3, self.arg3)
    }

    pub fn new(op: Opcode, arg1: Option<TokenType>, arg2: Option<TokenType>, arg3: Option<TokenType>) -> (r: Self)
        ensures
            r == (AssemblerInstructionRule { opcode: op, arg1, arg2, arg3 }),
    {
        AssemblerInstructionRule { opcode: op, arg1, arg2, arg3 }
    }

    /// Whether `inst` has this rule's opcode and argument kinds.
    pub fn is_match(&self, inst: AssemblerInstruction) -> (r: bool)
        ensures
            r == self.matches(inst),
    {
        match inst.opcode {
            Token::Opcode(opc) => {
                if opc != self.opcode {
                    return false;
                }
            },
            _ => return false,
        }
        if !Self::compare_token(inst.arg1, self.arg1) {
            return false;
        }
        if !Self::compare_token(inst.arg2, self.arg2) {
            return false;
        }
        if !Self::compare_token(inst.arg3, self.arg3) {
            return false;
        }
        true
    }

    fn compare_token(token: Option<Token>, token_type: Option<TokenType>) -> (r: bool)
        ensures
            r == token_fits(token, token_type),
    {
        match (token, token_type) {
            (None, None) => true,
            (Some(t), Some(k)) => TokenType::from(t) == k,
            _ => false,
        }
    }
}

/// The recognisers and instruction rules of an assembly language.
#[derive(Debug)]
pub struct Grammar {
    pub terminal_rules: Vec<TokenTypeRegex>,
    pub instruction_rules: Vec<AssemblerInstructionRule>,
}

impl Grammar {
    pub fn new() -> (r: Self)
        ensures
            r.terminal_rules@.len() == 0,
            r.instruction_rules@.len() == 0,
    {
        Grammar { terminal_rules: Vec::new(), instruction_rules: Vec::new() }
    }

    /// Adds a recogniser for `token_type` with pattern `src`, after the
    /// existing ones. Returns false, and adds nothing, when the pattern does
    /// not compile.
    pub fn add_rule(&mut self, src: &str, token_type: TokenType) -> (r: bool)
        ensures
            final(self).instruction_rules@ == old(self).instruction_rules@,
            r ==> final(self).terminal_rules@.len() == old(self).terminal_rules@.len() + 1
                && final(self).terminal_rules@.last().kind() == token_type
                && final(self).terminal_rules@.drop_last() == old(self).terminal_rules@,
            !r ==> final(self).terminal_rules@ == old(self).terminal_rules@,
            r == compiles(src@),
            shapes(final(self).terminal_rules@) == if r {
                shapes(old(self).terminal_rules@).push((token_type, src@))
            } else {
                shapes(old(self).terminal_rules@)
            },
    {
        match TokenTypeRegex::new(token_type, src) {
            Some(rule) => {
                self.terminal_rules.push(rule);
                assert(self.terminal_rules@.drop_last() =~= old(self).terminal_rules@);
                assert(shapes(self.terminal_rules@) =~= shapes(old(self).terminal_rules@).push(
                    (token_type, src@),
                ));
                true
            },
            None => false,
        }
    }

    /// Adds an instruction rule after the existing ones.
    pub fn add_intruction_rule(&mut self, rule: AssemblerInstructionRule)
        ensures
            final(self).instruction_rules@ == old(self).instruction_rules@.push(rule),
            final(self).terminal_rules@ == old(self).terminal_rules@,
    {
        self.instruction_rules.push(rule);
    }
}

/// Each recogniser's kind and pattern, in order.
pub open spec fn shapes(rules: Seq<TokenTypeRegex>) -> Seq<(TokenType, Seq<char>)> {
    rules.map_values(|x: TokenTypeRegex| (x.kind(), x.pattern()))
}

/// The entries whose pattern compiles, in order.
pub open spec fn compiled(entries: Seq<(TokenType, Seq<char>)>) -> Seq<(TokenType, Seq<char>)>
    decreases entries.len(),
{
    if entries.len() == 0 {
        entries
    } else {
        let init = compiled(entries.drop_last());
        if compiles(entries.last().1) {
            init.push(entries.last())
        } else {
            init
        }
    }
}

/// The recognisers of this machine's assembly language, in the order they
/// are tried.
pub open spec fn standard_recognisers() -> Seq<(TokenType, Seq<char>)> {
    seq![
        (TokenType::Opcode, "(?P<op>[a-z]+)"@),
        (TokenType::Register, "\\$(?P<reg>\\d{1,2})"@),
        (TokenType::IntegerOperand, "\\#(?P<intop>\\d+)"@),
    ]
}

/// The assembly language of this machine: recognisers for mnemonics
/// (`[a-z]+`), registers (`$` and one or two digits) and integer operands
/// (`#` and digits), in that order, and the rule `LOAD register integer`.
pub fn build_grammar() -> (r: Grammar)
    ensures
        r.instruction_rules@ == seq![
            AssemblerInstructionRule {
                opcode: Opcode::LOAD,
                arg1: Some(TokenType::Register),
                arg2: Some(TokenType::IntegerOperand),
                arg3: None,
            },
        ],
        shapes(r.terminal_rules@) == compiled(standard_recognisers()),
{
    let ghost all = standard_recognisers();
    let mut grammar = Grammar::new();
    assert(shapes(grammar.terminal_rules@) =~= compiled(all.take(0)));
    grammar.add_rule("(?P<op>[a-z]+)", TokenType::Opcode);
    assert(all.take(1).drop_last() =~= all.take(0));
    assert(shapes(grammar.terminal_rules@) == compiled(all.take(1)));
    grammar.add_rule("\\$(?P<reg>\\d{1,2})", TokenType::Register);
    assert(all.take(2).drop_last() =~= all.take(1));
    assert(shapes(grammar.terminal_rules@) == compiled(all.take(2)));
    grammar.add_rule("\\#(?P<intop>\\d+)", TokenType::IntegerOperand);
    assert(all.take(3).drop_last() =~= all.take(2));
    assert(all.take(3) =~= all);
    grammar.add_intruction_rule(
        AssemblerInstructionRule::new(
            Opcode::LOAD,
            Some(TokenType::Register),
            Some(TokenType::IntegerOperand),
            None,
        ),
    );
    assert(grammar.instruction_rules@ =~= seq![
        AssemblerInstructionRule {
            opcode: Opcode::LOAD,
            arg1: Some(TokenType::Register),
            arg2: Some(TokenType::IntegerOperand),
            arg3: None,
        },
    ]);
    grammar
}

/// Reads assembly text into tokens and checks instructions against the
/// grammar's rules.
#[derive(Debug)]
pub struct Lexer {
    pub grammar: Grammar,
}

impl Lexer {
    /// A lexer for the grammar that `build_grammar` gives.
    pub fn new() -> (r: Self)
        ensures
            r.grammar.instruction_rules@ == seq![
                AssemblerInstructionRule {
                    opcode: Opcode::LOAD,
                    arg1: Some(TokenType::Register),
                    arg2: Some(TokenType::IntegerOperand),
                    arg3: None,
                },
            ],
            shapes(r.grammar.terminal_rules@) == compiled(standard_recognisers()),
    {
        Lexer { grammar: build_grammar() }
    }

    /// Whether some rule of the grammar accepts `inst`.
    pub fn match_instruction(&self, inst: AssemblerInstruction) -> (r: bool)
        ensures
            r == exists|i: int|
                0 <= i < self.grammar.instruction_rules@.len()
                    && (#[trigger] self.grammar.instruction_rules@[i]).matches(inst),
    {
        let rules = &self.grammar.instruction_rules;
        let mut i: usize = 0;
        while i < rules.len()
            invariant
                i <= rules@.len(),
                rules == &self.grammar.instruction_rules,
                forall|k: int| 0 <= k < i ==> !(#[trigger] rules@[k]).matches(inst),
            decreases rules@.len() - i,
        {
            if rules[i].is_match(inst) {
                return true;
            }
            i = i + 1;
        }
        false
    }

    /// Reads one token: the first recogniser, in grammar order, whose group
    /// captures in `src` decides, and the captured text becomes the token.
    pub fn parse_str(&self, src: &str) -> (r: Result<Token, LexError>)
        ensures
            r == first_token(self.grammar.terminal_rules@, src@),
    {
        let rules = &self.grammar.terminal_rules;
        let mut i: usize = 0;
        assert(rules@.skip(0) =~= rules@);
        while i < rules.len()
            invariant
                i <= rules@.len(),
                rules == &self.grammar.terminal_rules,
                first_token(rules@.skip(i as int), src@) == first_token(rules@, src@),
            decreases rules@.len() - i,
        {
            let rule = &rules[i];
            assert(rules@.skip(i as int)[0] == rule);
            match named_capture(rule, src, group_name(rule.token_type)) {
                Some(text) => {
                    return token_from_text(rule.token_type, text);
                },
                None => {},
            }
            assert(rules@.skip(i as int).drop_first() =~= rules@.skip(i + 1));
            i = i + 1;
        }
        assert(rules@.skip(i as int) =~= Seq::<TokenTypeRegex>::empty());
        Err(LexError::NoMatchingToken)
    }

    /// Reads an instruction: pieces separated by single spaces, at most
    /// four, each read as a token; the first is the opcode and the others
    /// its arguments. The first piece that gives no token decides the error.
    pub fn parse_instruction(&self, inst: &str) -> (r: Result<AssemblerInstruction, LexError>)
        ensures
            r == instruction_of(self.grammar.terminal_rules@, inst@),
    {
        let args = split_spaces(inst);
        let ghost pieces = split_on_space(inst@);
        let ghost rules = self.grammar.terminal_rules@;
        proof {
            crate::text::lemma_split_nonempty(inst@);
            assert(args@.len() == pieces.len());
            assert(forall|k: int| 0 <= k < args@.len() ==> (#[trigger] args@[k])@ == pieces[k]);
        }
        if args.len() > 4 {
            return Err(LexError::TooManyArguments);
        }
        let mut tokens: Vec<Token> = Vec::new();
        let mut i: usize = 0;
        assert(pieces.take(0) =~= Seq::<Seq<char>>::empty());
        while i < args.len()
            invariant
                i <= args@.len() <= 4,
                args@.len() == pieces.len(),
                pieces == split_on_space(inst@),
                rules == self.grammar.terminal_rules@,
                forall|k: int| 0 <= k < args@.len() ==> (#[trigger] args@[k])@ == pieces[k],
                tokens_of(rules, pieces.take(i as int)) == Ok::<Seq<Token>, LexError>(tokens@),
            decreases args@.len() - i,
        {
            assert(pieces.take(i + 1).drop_last() =~= pieces.take(i as int));
            assert(pieces.take(i + 1).last() == args@[i as int]@);
            match self.parse_str(args[i]) {
                Ok(t) => tokens.push(t),
                Err(e) => {
                    proof {
                        lemma_tokens_error_persists(rules, pieces, i as int + 1);
                    }
                    return Err(e);
                },
            }
            i = i + 1;
        }
        assert(pieces.take(args@.len() as int) =~= pieces);
        let opcode = tokens[0];
        let arg1 = if tokens.len() > 1 { Some(tokens[1]) } else { None };
        let arg2 = if tokens.len() > 2 { Some(tokens[2]) } else { None };
        let arg3 = if tokens.len() > 3 { Some(tokens[3]) } else { None };
        Ok(AssemblerInstruction { opcode, arg1, arg2, arg3 })
    }
}

/// Once a prefix of the pieces gives an error, every longer prefix gives
/// the same error.
proof fn lemma_tokens_error_persists(rules: Seq<TokenTypeRegex>, pieces: Seq<Seq<char>>, k: int)
    requires
        0 <= k <= pieces.len(),
        tokens_of(rules, pieces.take(k)) is Err,
    ensures
        tokens_of(rules, pieces) == tokens_of(rules, pieces.take(k)),
    decreases pieces.len() - k,
{
    if k < pieces.len() {
        assert(pieces.take(k + 1).drop_last() =~= pieces.take(k));
        lemma_tokens_error_persists(rules, pieces, k + 1);
    } else {
        assert(pieces.take(k) =~= pieces);
    }
}

} // verus!
