//! Every rule of the grammar moves forward: a rule that succeeds has read at
//! least one token and has not run past the end. So the errors that the
//! grammar keeps for a rule that stalls never come.
use vstd::prelude::*;
use crate::parser::expression::ExprView;
use crate::parser::grammar::{
    ParseErrorKind, arguments, assignment, binary, binary_rest, block, block_rest, call, call_rest,
    declaration, elements_rest, expect, expression, expression_statement, for_statement,
    function_declaration, if_expression, if_expression_rest, if_statement, list, parameters,
    parameters_rest, primary, print_statement, progressed, record, record_rest,
    return_statement, statement, take, unary, variable_declaration, while_statement, with_statement,
};
use crate::parser::statement::StmtView;
use crate::token::{TokenType, TokenView};

verus! {

/// A rule that may read nothing has at least not gone back, nor past the
/// end.
pub open spec fn held(ts: Seq<TokenView>, pos: int, next: int) -> bool {
    pos <= next <= ts.len()
}

/// An expression that is recognised has read at least one token.
pub proof fn law_expression_moves_forward(ts: Seq<TokenView>, pos: int)
    requires
        0 <= pos,
    ensures
        expression(ts, pos) matches Ok((_, next)) ==> progressed(ts, pos, next),
    decreases ts.len() - pos, 30nat,
{
    reveal(expression);
    reveal(assignment);
    lemma_assignment(ts, pos);
}

proof fn lemma_assignment(ts: Seq<TokenView>, pos: int)
    requires
        0 <= pos,
    ensures
        assignment(ts, pos) matches Ok((_, next)) ==> progressed(ts, pos, next),
    decreases ts.len() - pos, 29nat,
{
    reveal(assignment);
    reveal(if_expression);
    lemma_if_expression(ts, pos);
    match if_expression(ts, pos) {
        Ok((_, stop1)) => {
            if progressed(ts, pos, stop1) && stop1 < ts.len() {
                lemma_assignment(ts, stop1 + 1);
            }
        },
        Err(_) => {},
    }
}

proof fn lemma_if_expression(ts: Seq<TokenView>, pos: int)
    requires
        0 <= pos,
    ensures
        if_expression(ts, pos) matches Ok((_, next)) ==> progressed(ts, pos, next),
    decreases ts.len() - pos, 28nat,
{
    reveal(if_expression);
    reveal(if_expression_rest);
    reveal(binary);
    lemma_binary(ts, pos, 5);
    match binary(ts, pos, 5) {
        Ok((first, p)) => {
            if progressed(ts, pos, p) {
                lemma_if_expression_rest(ts, p, first);
            }
        },
        Err(_) => {},
    }
}

proof fn lemma_if_expression_rest(ts: Seq<TokenView>, pos: int, first: ExprView)
    requires
        0 <= pos <= ts.len(),
    ensures
        if_expression_rest(ts, pos, first) matches Ok((_, next)) ==> held(ts, pos, next),
    decreases ts.len() - pos, 50nat,
{
    reveal(if_expression_rest);
    reveal(binary);
    if pos < ts.len() && ts[pos].token_type == TokenType::If {
        lemma_binary(ts, pos + 1, 5);
        match binary(ts, pos + 1, 5) {
            Ok((condition, stop1)) => {
                match expect(ts, stop1, TokenType::Else, ParseErrorKind::ExpectedElse) {
                    Ok(stop2) => {
                        if progressed(ts, pos, stop2) {
                            lemma_binary(ts, stop2, 5);
                            match binary(ts, stop2, 5) {
                                Ok((else_branch, stop3)) => {
                                    if progressed(ts, pos, stop3) {
                                        lemma_if_expression_rest(
                                            ts,
                                            stop3,
                                            ExprView::IfExpression {
                                                condition: Box::new(condition),
                                                then_branch: Box::new(first),
                                                else_branch: Box::new(else_branch),
                                            },
                                        );
                                    }
                                },
                                Err(_) => {},
                            }
                        }
                    },
                    Err(_) => {},
                }
            },
            Err(_) => {},
        }
    }
}

proof fn lemma_binary(ts: Seq<TokenView>, pos: int, tier: nat)
    requires
        0 <= pos,
    ensures
        binary(ts, pos, tier) matches Ok((_, next)) ==> progressed(ts, pos, next),
    decreases ts.len() - pos, 21nat + tier, 1nat,
{
    reveal(binary);
    reveal(binary_rest);
    reveal(unary);
    if tier == 0 {
        lemma_unary(ts, pos);
        match unary(ts, pos) {
            Ok((first, p)) => {
                if progressed(ts, pos, p) {
                    lemma_binary_rest(ts, p, tier, first);
                }
            },
            Err(_) => {},
        }
    } else {
        lemma_binary(ts, pos, (tier - 1) as nat);
        match binary(ts, pos, (tier - 1) as nat) {
            Ok((first, p)) => {
                if progressed(ts, pos, p) {
                    lemma_binary_rest(ts, p, tier, first);
                }
            },
            Err(_) => {},
        }
    }
}

proof fn lemma_binary_rest(ts: Seq<TokenView>, pos: int, tier: nat, left: ExprView)
    requires
        0 <= pos <= ts.len(),
    ensures
        binary_rest(ts, pos, tier, left) matches Ok((_, next)) ==> held(ts, pos, next),
    decreases ts.len() - pos, 50nat, 0nat,
{
    reveal(binary_rest);
    reveal(binary);
    reveal(unary);
    if pos < ts.len() && crate::parser::grammar::is_operator(tier, ts[pos].token_type) {
        if tier == 0 {
            lemma_unary(ts, pos + 1);
            match unary(ts, pos + 1) {
                Ok((right, p)) => {
                    if progressed(ts, pos, p) {
                        lemma_binary_rest(
                            ts,
                            p,
                            tier,
                            crate::parser::grammar::binary_node(tier, left, ts[pos], right),
                        );
                    }
                },
                Err(_) => {},
            }
        } else {
            lemma_binary(ts, pos + 1, (tier - 1) as nat);
            match binary(ts, pos + 1, (tier - 1) as nat) {
                Ok((right, p)) => {
                    if progressed(ts, pos, p) {
                        lemma_binary_rest(
                            ts,
                            p,
                            tier,
                            crate::parser::grammar::binary_node(tier, left, ts[pos], right),
                        );
                    }
                },
                Err(_) => {},
            }
        }
    }
}

proof fn lemma_unary(ts: Seq<TokenView>, pos: int)
    requires
        0 <= pos,
    ensures
        unary(ts, pos) matches Ok((_, next)) ==> progressed(ts, pos, next),
    decreases ts.len() - pos, 20nat, 0nat,
{
    reveal(unary);
    reveal(call);
    if pos < ts.len() && (ts[pos].token_type == TokenType::Bang || ts[pos].token_type == TokenType::Minus) {
        lemma_unary(ts, pos + 1);
    } else {
        lemma_call(ts, pos);
    }
}

proof fn lemma_call(ts: Seq<TokenView>, pos: int)
    requires
        0 <= pos,
    ensures
        call(ts, pos) matches Ok((_, next)) ==> progressed(ts, pos, next),
    decreases ts.len() - pos, 19nat, 0nat,
{
    reveal(call);
    reveal(call_rest);
    reveal(primary);
    lemma_primary(ts, pos);
    match primary(ts, pos) {
        Ok((callee, p)) => {
            if progressed(ts, pos, p) {
                lemma_call_rest(ts, p, callee);
            }
        },
        Err(_) => {},
    }
}

proof fn lemma_call_rest(ts: Seq<TokenView>, pos: int, callee: ExprView)
    requires
        0 <= pos <= ts.len(),
    ensures
        call_rest(ts, pos, callee) matches Ok((_, next)) ==> held(ts, pos, next),
    decreases ts.len() - pos, 50nat, 0nat,
{
    reveal(call_rest);
    reveal(arguments);
    reveal(expression);
    if pos < ts.len() {
        match ts[pos].token_type {
            TokenType::LParen => {
                lemma_arguments(ts, pos + 1);
                match arguments(ts, pos + 1) {
                    Ok((arguments, p)) => {
                        if progressed(ts, pos, p) {
                            lemma_call_rest(ts, p, ExprView::Call { identifier: Box::new(callee), arguments });
                        }
                    },
                    Err(_) => {},
                }
            },
            TokenType::LBracket => {
                law_expression_moves_forward(ts, pos + 1);
                match expression(ts, pos + 1) {
                    Ok((index, stop1)) => {
                        match expect(ts, stop1, TokenType::RBracket, ParseErrorKind::ExpectedRightBracket) {
                            Ok(stop2) => {
                                if progressed(ts, pos, stop2) {
                                    lemma_call_rest(
                                        ts,
                                        stop2,
                                        ExprView::Index { list: Box::new(callee), expression: Box::new(index) },
                                    );
                                }
                            },
                            Err(_) => {},
                        }
                    },
                    Err(_) => {},
                }
            },
            TokenType::Dot => {
                match take(ts, pos + 1) {
                    Ok((key, p)) => {
                        lemma_call_rest(ts, p, ExprView::MapIndex { map: Box::new(callee), key });
                    },
                    Err(_) => {},
                }
            },
            _ => {},
        }
    }
}

proof fn lemma_arguments(ts: Seq<TokenView>, pos: int)
    requires
        0 <= pos,
    ensures
        arguments(ts, pos) matches Ok((_, next)) ==> progressed(ts, pos, next),
    decreases ts.len() - pos, 40nat, 0nat,
{
    reveal(arguments);
    reveal(expression);
    reveal(elements_rest);
    if !(pos < ts.len() && ts[pos].token_type == TokenType::RParen) {
        law_expression_moves_forward(ts, pos);
        match expression(ts, pos) {
            Ok((first, p)) => {
                if progressed(ts, pos, p) {
                    lemma_elements_rest(
                        ts,
                        p,
                        seq![first],
                        TokenType::RParen,
                        ParseErrorKind::ExpectedRightParen,
                    );
                }
            },
            Err(_) => {},
        }
    }
}

proof fn lemma_elements_rest(
    ts: Seq<TokenView>,
    pos: int,
    done: Seq<ExprView>,
    close: TokenType,
    missing: ParseErrorKind,
)
    requires
        0 <= pos <= ts.len(),
    ensures
        elements_rest(ts, pos, done, close, missing) matches Ok((_, next)) ==> progressed(ts, pos, next),
    decreases ts.len() - pos, 50nat, 0nat,
{
    reveal(elements_rest);
    reveal(expression);
    if pos < ts.len() && ts[pos].token_type == TokenType::Comma {
        law_expression_moves_forward(ts, pos + 1);
        match expression(ts, pos + 1) {
            Ok((next, p)) => {
                if progressed(ts, pos, p) {
                    lemma_elements_rest(ts, p, done.push(next), close, missing);
                }
            },
            Err(_) => {},
        }
    }
}

proof fn lemma_primary(ts: Seq<TokenView>, pos: int)
    requires
        0 <= pos,
    ensures
        primary(ts, pos) matches Ok((_, next)) ==> progressed(ts, pos, next),
    decreases ts.len() - pos, 18nat, 0nat,
{
    reveal(primary);
    reveal(list);
    reveal(record);
    reveal(expression);
    if pos < ts.len() {
        match ts[pos].token_type {
            TokenType::LBracket => {
                lemma_list(ts, pos);
            },
            TokenType::LBrace => {
                lemma_record(ts, pos);
            },
            TokenType::LParen => {
                law_expression_moves_forward(ts, pos + 1);
            },
            _ => {},
        }
    }
}

proof fn lemma_record(ts: Seq<TokenView>, pos: int)
    requires
        0 <= pos,
    ensures
        record(ts, pos) matches Ok((_, next)) ==> progressed(ts, pos, next),
    decreases ts.len() - pos, 17nat, 0nat,
{
    reveal(record);
    reveal(record_rest);
    if pos < ts.len() && ts[pos].token_type == TokenType::LBrace {
        lemma_record_rest(ts, pos + 1, Seq::empty());
    }
}

proof fn lemma_record_rest(ts: Seq<TokenView>, pos: int, done: Seq<(TokenView, ExprView)>)
    requires
        0 <= pos <= ts.len(),
    ensures
        record_rest(ts, pos, done) matches Ok((_, next)) ==> progressed(ts, pos, next),
    decreases ts.len() - pos, 50nat, 0nat,
{
    reveal(record_rest);
    reveal(expression);
    if !(pos < ts.len() && ts[pos].token_type == TokenType::RBrace) {
        match take(ts, pos) {
            Ok((key, stop1)) => {
                match expect(ts, stop1, TokenType::Colon, ParseErrorKind::ExpectedColon) {
                    Ok(stop2) => {
                        law_expression_moves_forward(ts, stop2);
                        match expression(ts, stop2) {
                            Ok((value, stop3)) => {
                                match expect(ts, stop3, TokenType::Comma, ParseErrorKind::ExpectedComma) {
                                    Ok(stop4) => {
                                        if progressed(ts, pos, stop4) {
                                            lemma_record_rest(ts, stop4, done.push((key, value)));
                                        }
                                    },
                                    Err(_) => {},
                                }
                            },
                            Err(_) => {},
                        }
                    },
                    Err(_) => {},
                }
            },
            Err(_) => {},
        }
    }
}

proof fn lemma_list(ts: Seq<TokenView>, pos: int)
    requires
        0 <= pos,
    ensures
        list(ts, pos) matches Ok((_, next)) ==> progressed(ts, pos, next),
    decreases ts.len() - pos, 17nat, 0nat,
{
    reveal(list);
    reveal(expression);
    reveal(elements_rest);
    if pos < ts.len() && ts[pos].token_type == TokenType::LBracket {
        if !(pos + 1 < ts.len() && ts[pos + 1].token_type == TokenType::RBracket) {
            law_expression_moves_forward(ts, pos + 1);
            match expression(ts, pos + 1) {
                Ok((first, p)) => {
                    if progressed(ts, pos, p) {
                        lemma_elements_rest(
                            ts,
                            p,
                            seq![first],
                            TokenType::RBracket,
                            ParseErrorKind::ExpectedRightBracket,
                        );
                    }
                },
                Err(_) => {},
            }
        }
    }
}

/// A declaration that is recognised has read at least one token.
pub proof fn law_declaration_moves_forward(ts: Seq<TokenView>, pos: int)
    requires
        0 <= pos,
    ensures
        declaration(ts, pos) matches Ok((_, next)) ==> progressed(ts, pos, next),
    decreases ts.len() - pos, 42nat,
{
    reveal(declaration);
    reveal(variable_declaration);
    reveal(function_declaration);
    reveal(statement);
    if pos < ts.len() && ts[pos].token_type == TokenType::Make {
        lemma_variable_declaration(ts, pos);
    } else if pos < ts.len() && ts[pos].token_type == TokenType::Funk {
        lemma_function_declaration(ts, pos);
    } else {
        law_statement_moves_forward(ts, pos);
    }
}

proof fn lemma_variable_declaration(ts: Seq<TokenView>, pos: int)
    requires
        0 <= pos,
    ensures
        variable_declaration(ts, pos) matches Ok((_, next)) ==> progressed(ts, pos, next),
{
    reveal(variable_declaration);
    reveal(expression);
    if pos < ts.len() && ts[pos].token_type == TokenType::Make {
        match take(ts, pos + 1) {
            Ok((_, stop1)) => {
                match expect(ts, stop1, TokenType::Equal, ParseErrorKind::ExpectedEqual) {
                    Ok(stop2) => {
                        law_expression_moves_forward(ts, stop2);
                    },
                    Err(_) => {},
                }
            },
            Err(_) => {},
        }
    }
}

proof fn lemma_parameters_rest(ts: Seq<TokenView>, pos: int, done: Seq<TokenView>)
    requires
        0 <= pos <= ts.len(),
    ensures
        parameters_rest(ts, pos, done) matches Ok((_, next)) ==> progressed(ts, pos, next),
    decreases ts.len() - pos,
{
    reveal(parameters_rest);
    if pos < ts.len() && ts[pos].token_type == TokenType::Comma {
        match take(ts, pos + 1) {
            Ok((name, p)) => {
                lemma_parameters_rest(ts, p, done.push(name));
            },
            Err(_) => {},
        }
    }
}

proof fn lemma_function_declaration(ts: Seq<TokenView>, pos: int)
    requires
        0 <= pos,
    ensures
        function_declaration(ts, pos) matches Ok((_, next)) ==> progressed(ts, pos, next),
    decreases ts.len() - pos, 41nat,
{
    reveal(function_declaration);
    reveal(block);
    if pos < ts.len() && ts[pos].token_type == TokenType::Funk {
        match take(ts, pos + 1) {
            Ok((_, stop1)) => {
                match expect(ts, stop1, TokenType::LParen, ParseErrorKind::ExpectedLeftParen) {
                    Ok(stop2) => {
                        if !(stop2 < ts.len() && ts[stop2].token_type == TokenType::RParen) {
                            match take(ts, stop2) {
                                Ok((first, p)) => {
                                    lemma_parameters_rest(ts, p, seq![first]);
                                },
                                Err(_) => {},
                            }
                        }
                        match parameters(ts, stop2) {
                            Ok((_, stop3)) => {
                                if progressed(ts, pos, stop3) {
                                    lemma_block(ts, stop3);
                                }
                            },
                            Err(_) => {},
                        }
                    },
                    Err(_) => {},
                }
            },
            Err(_) => {},
        }
    }
}

/// A statement that is recognised has read at least one token.
pub proof fn law_statement_moves_forward(ts: Seq<TokenView>, pos: int)
    requires
        0 <= pos,
    ensures
        statement(ts, pos) matches Ok((_, next)) ==> progressed(ts, pos, next),
    decreases ts.len() - pos, 41nat,
{
    reveal(statement);
    reveal(print_statement);
    reveal(block);
    reveal(if_statement);
    reveal(while_statement);
    reveal(return_statement);
    reveal(with_statement);
    reveal(for_statement);
    reveal(expression_statement);
    reveal(expression);
    if pos < ts.len() {
        match ts[pos].token_type {
            TokenType::Print => {
                law_expression_moves_forward(ts, pos + 1);
            },
            TokenType::LBrace => {
                lemma_block(ts, pos);
            },
            TokenType::If => {
                lemma_if_statement(ts, pos);
            },
            TokenType::While => {
                lemma_while_statement(ts, pos);
            },
            TokenType::Return => {
                law_expression_moves_forward(ts, pos + 1);
            },
            TokenType::With => {
                lemma_with_statement(ts, pos);
            },
            TokenType::For => {
                lemma_for_statement(ts, pos);
            },
            _ => {
                law_expression_moves_forward(ts, pos);
            },
        }
    } else {
        law_expression_moves_forward(ts, pos);
    }
}

proof fn lemma_block(ts: Seq<TokenView>, pos: int)
    requires
        0 <= pos,
    ensures
        block(ts, pos) matches Ok((_, next)) ==> progressed(ts, pos, next),
    decreases ts.len() - pos, 40nat,
{
    reveal(block);
    reveal(block_rest);
    if pos < ts.len() && ts[pos].token_type == TokenType::LBrace {
        lemma_block_rest(ts, pos + 1, Seq::empty());
    }
}

proof fn lemma_block_rest(ts: Seq<TokenView>, pos: int, done: Seq<StmtView>)
    requires
        0 <= pos <= ts.len(),
    ensures
        block_rest(ts, pos, done) matches Ok((_, next)) ==> progressed(ts, pos, next),
    decreases ts.len() - pos, 50nat,
{
    reveal(block_rest);
    reveal(declaration);
    if pos < ts.len() && ts[pos].token_type != TokenType::RBrace && ts[pos].token_type != TokenType::EOF {
        law_declaration_moves_forward(ts, pos);
        match declaration(ts, pos) {
            Ok((s, p)) => {
                if progressed(ts, pos, p) {
                    lemma_block_rest(ts, p, done.push(s));
                }
            },
            Err(_) => {},
        }
    }
}

proof fn lemma_if_statement(ts: Seq<TokenView>, pos: int)
    requires
        0 <= pos < ts.len(),
        ts[pos].token_type == TokenType::If,
    ensures
        if_statement(ts, pos) matches Ok((_, next)) ==> progressed(ts, pos, next),
    decreases ts.len() - pos, 40nat,
{
    reveal(if_statement);
    reveal(expression);
    reveal(statement);
    law_expression_moves_forward(ts, pos + 1);
    match expression(ts, pos + 1) {
        Ok((_, stop1)) => {
            if progressed(ts, pos, stop1) {
                law_statement_moves_forward(ts, stop1);
                match statement(ts, stop1) {
                    Ok((_, stop2)) => {
                        if progressed(ts, pos, stop2) && stop2 < ts.len() {
                            law_statement_moves_forward(ts, stop2 + 1);
                        }
                    },
                    Err(_) => {},
                }
            }
        },
        Err(_) => {},
    }
}

proof fn lemma_while_statement(ts: Seq<TokenView>, pos: int)
    requires
        0 <= pos < ts.len(),
        ts[pos].token_type == TokenType::While,
    ensures
        while_statement(ts, pos) matches Ok((_, next)) ==> progressed(ts, pos, next),
    decreases ts.len() - pos, 40nat,
{
    reveal(while_statement);
    reveal(expression);
    reveal(statement);
    law_expression_moves_forward(ts, pos + 1);
    match expression(ts, pos + 1) {
        Ok((_, stop1)) => {
            if progressed(ts, pos, stop1) {
                law_statement_moves_forward(ts, stop1);
            }
        },
        Err(_) => {},
    }
}

proof fn lemma_with_statement(ts: Seq<TokenView>, pos: int)
    requires
        0 <= pos < ts.len(),
        ts[pos].token_type == TokenType::With,
    ensures
        with_statement(ts, pos) matches Ok((_, next)) ==> progressed(ts, pos, next),
    decreases ts.len() - pos, 40nat,
{
    reveal(with_statement);
    reveal(expression);
    reveal(statement);
    law_expression_moves_forward(ts, pos + 1);
    match expression(ts, pos + 1) {
        Ok((_, stop1)) => {
            match expect(ts, stop1, TokenType::As, ParseErrorKind::ExpectedAs) {
                Ok(stop2) => {
                    match take(ts, stop2) {
                        Ok((_, stop3)) => {
                            if progressed(ts, pos, stop3) {
                                law_statement_moves_forward(ts, stop3);
                            }
                        },
                        Err(_) => {},
                    }
                },
                Err(_) => {},
            }
        },
        Err(_) => {},
    }
}

proof fn lemma_for_statement(ts: Seq<TokenView>, pos: int)
    requires
        0 <= pos < ts.len(),
        ts[pos].token_type == TokenType::For,
    ensures
        for_statement(ts, pos) matches Ok((_, next)) ==> progressed(ts, pos, next),
    decreases ts.len() - pos, 40nat,
{
    reveal(for_statement);
    reveal(expression);
    reveal(statement);
    match take(ts, pos + 1) {
        Ok((_, stop1)) => {
            match expect(ts, stop1, TokenType::In, ParseErrorKind::ExpectedIn) {
                Ok(stop2) => {
                    law_expression_moves_forward(ts, stop2);
                    match expression(ts, stop2) {
                        Ok((_, stop3)) => {
                            if progressed(ts, pos, stop3) {
                                law_statement_moves_forward(ts, stop3);
                            }
                        },
                        Err(_) => {},
                    }
                },
                Err(_) => {},
            }
        },
        Err(_) => {},
    }
}

} // verus!
