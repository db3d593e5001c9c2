use iridium::instruction::Opcode;
use iridium::lexer::{
    build_grammar, token_from_text, AssemblerInstruction, AssemblerInstructionRule, Grammar,
    LexError, Lexer, Token, TokenType,
};

#[test]
fn test_opcode_load() {
    let lex = Lexer::new();
    assert_eq!(lex.parse_str("load"), Ok(Token::Opcode(Opcode::LOAD)));
    assert!(lex.parse_str("123").is_err());
}

#[test]
fn test_register() {
    let lex = Lexer::new();
    assert_eq!(lex.parse_str("$1"), Ok(Token::Register(1)));
    assert!(lex.parse_str("$").is_err());
}

#[test]
fn test_integer_operand() {
    let lex = Lexer::new();
    assert_eq!(lex.parse_str("#100"), Ok(Token::IntegerOperand(100)));
    assert!(lex.parse_str("#").is_err());
}

#[test]
fn test_load_instruction() {
    let lex = Lexer::new();
    assert_eq!(
        lex.parse_instruction("load $1 #100"),
        Ok(AssemblerInstruction {
            opcode: Token::Opcode(Opcode::LOAD),
            arg1: Some(Token::Register(1)),
            arg2: Some(Token::IntegerOperand(100)),
            arg3: None
        })
    );
    assert!(lex.parse_instruction("load load $2 $1 #100").is_err());
}

#[test]
fn test_rule_load() {
    let lex = Lexer::new();
    let inst = lex.parse_instruction("load $1 #100").unwrap();
    assert!(lex.match_instruction(inst));
}

#[test]
fn too_many_arguments_error() {
    let lex = Lexer::new();
    assert_eq!(
        lex.parse_instruction("load load $2 $1 #100"),
        Err(LexError::TooManyArguments)
    );
}

#[test]
fn captured_group_not_whole_text() {
    let lex = Lexer::new();
    assert_eq!(lex.parse_str("$12"), Ok(Token::Register(12)));
    assert_eq!(lex.parse_str("#007"), Ok(Token::IntegerOperand(7)));
    assert_eq!(lex.parse_str("x$"), Ok(Token::Opcode(Opcode::IGL)));
    assert_eq!(lex.parse_str("#99999999999"), Err(LexError::OperandOutOfRange));
    assert_eq!(lex.parse_str("123"), Err(LexError::NoMatchingToken));
}

#[test]
fn rule_rejects_wrong_shapes() {
    let lex = Lexer::new();
    let inst = lex.parse_instruction("load #1 $100").unwrap();
    assert!(!lex.match_instruction(inst));
    let inst = lex.parse_instruction("load $1").unwrap();
    assert_eq!(inst.arg2, None);
    assert!(!lex.match_instruction(inst));
    let inst = lex.parse_instruction("add $1 #100").unwrap();
    assert!(!lex.match_instruction(inst));
    let rule = AssemblerInstructionRule::new(Opcode::HLT, None, None, None);
    assert!(rule.is_match(AssemblerInstruction::new(Token::Opcode(Opcode::HLT), None, None, None)));
    assert!(!rule.is_match(AssemblerInstruction::new(Token::Register(0), None, None, None)));
}

#[test]
fn token_text_conversion() {
    assert_eq!(token_from_text(TokenType::Register, "255"), Ok(Token::Register(255)));
    assert_eq!(token_from_text(TokenType::Register, "256"), Err(LexError::OperandOutOfRange));
    assert_eq!(
        token_from_text(TokenType::IntegerOperand, "2147483647"),
        Ok(Token::IntegerOperand(i32::MAX))
    );
    assert_eq!(
        token_from_text(TokenType::IntegerOperand, "2147483648"),
        Err(LexError::OperandOutOfRange)
    );
    assert_eq!(token_from_text(TokenType::Opcode, "jeq"), Ok(Token::Opcode(Opcode::JEQ)));
    assert_eq!(TokenType::from(Token::IntegerOperand(3)), TokenType::IntegerOperand);
}

#[test]
fn grammar_building() {
    let grammar = build_grammar();
    assert_eq!(grammar.terminal_rules.len(), 3);
    assert_eq!(grammar.instruction_rules.len(), 1);
    let mut g = Grammar::new();
    assert!(!g.add_rule("(unclosed", TokenType::Opcode));
    assert!(g.terminal_rules.is_empty());
    assert!(g.add_rule("(?P<reg>[0-9])", TokenType::Register));
    assert_eq!(g.terminal_rules.len(), 1);
}
