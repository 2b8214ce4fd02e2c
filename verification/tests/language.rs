//! Programs in source form, run by the interpreter and turned into LLVM IR. A small front
//! end stands here for the real one: it knows as much of the language as the programs use.
use std::rc::Rc;
use tie::ast::{
    BinaryOp, Block, ClassField, ClassInfo, Expr, ExprKind, Exprs, Float, FnDef, FuncSig,
    GlobalVar, Note, Param, Program, Sem, Stmt, SwitchCase, TableInfo, TableRet, TableVar,
    TupleField, TyKw, TypeSpec, UnaryOp,
};
use tie::host::{HostOp, MathFn, Num, Parsed, Reply, Request};
use tie::http::parse_url;
use tie::interp::{c_guard, Machine, Session};
use tie::ir::{gen_ir, IrOutput};
use tie::msg::MsgState;
use tie::numbering::renumber_ir;
use tie::semantics::{Ctl, Finish};
use tie::table::{next_rand, seed_rng};

// ---------- tokens ----------
#[derive(Clone, Debug, PartialEq)]
enum Tok {
    Int(i64),
    Float(f64),
    Str(String),
    Char(char),
    Name(String),
    Op(&'static str),
    End,
}

/// A token, and whether it is the first on its line.
#[derive(Clone, Debug)]
struct Token {
    tok: Tok,
    fresh: bool,
}

const OPS: [&str; 51] = [
    "<<=", ">>=", "->", "::", "..", "++", "--", "+=", "-=", "*=", "/=", "%=", "&=", "|=", "^=",
    "<<", ">>", "&&", "||", "==", "!=", "<=", ">=", "+", "-", "*", "/", "%", "&", "|", "^", "<",
    ">", "=", "!", "?", ":", ";", ",", ".", "(", ")", "{", "}", "[", "]", "~", "@", "#", "$", "`",
];

fn escaped(c: char) -> char {
    match c {
        'n' => '\n',
        't' => '\t',
        'r' => '\r',
        '0' => '\0',
        other => other,
    }
}

fn tokens(src: &str) -> Result<Vec<Token>, String> {
    let text: Vec<char> = src.chars().collect();
    let mut out: Vec<Token> = Vec::new();
    let mut fresh = false;
    let mut i = 0;
    while i < text.len() {
        let c = text[i];
        if c == '\n' {
            fresh = true;
            i += 1;
            continue;
        }
        if c.is_whitespace() {
            i += 1;
            continue;
        }
        let tok = if c.is_ascii_digit() {
            let start = i;
            while i < text.len() && text[i].is_ascii_digit() {
                i += 1;
            }
            if i + 1 < text.len() && text[i] == '.' && text[i + 1].is_ascii_digit() {
                i += 1;
                while i < text.len() && text[i].is_ascii_digit() {
                    i += 1;
                }
                let word: String = text[start..i].iter().collect();
                Tok::Float(word.parse().unwrap())
            } else {
                let word: String = text[start..i].iter().collect();
                Tok::Int(word.parse().map_err(|_| format!("整数 {} 过大", word))?)
            }
        } else if c.is_alphabetic() || c == '_' {
            let start = i;
            while i < text.len() && (text[i].is_alphanumeric() || text[i] == '_') {
                i += 1;
            }
            Tok::Name(text[start..i].iter().collect())
        } else if c == '"' {
            let mut word = String::new();
            i += 1;
            while i < text.len() && text[i] != '"' {
                if text[i] == '\\' && i + 1 < text.len() {
                    i += 1;
                    word.push(escaped(text[i]));
                } else {
                    word.push(text[i]);
                }
                i += 1;
            }
            if i >= text.len() {
                return Err("字符串没有结束".to_string());
            }
            i += 1;
            Tok::Str(word)
        } else if c == '\'' && i + 2 < text.len() && text[i + 2] == '\'' {
            i += 3;
            Tok::Char(text[i - 2])
        } else {
            let rest: String = text[i..text.len().min(i + 3)].iter().collect();
            match OPS.iter().find(|op| rest.starts_with(**op)) {
                Some(op) => {
                    i += op.len();
                    Tok::Op(op)
                }
                None => return Err(format!("非法字符 '{}'", c)),
            }
        };
        out.push(Token { tok, fresh });
        fresh = false;
    }
    out.push(Token { tok: Tok::End, fresh: true });
    Ok(out)
}

// ---------- types ----------
#[derive(Clone, Debug, PartialEq)]
enum Ty {
    Kw(TyKw),
    Struct(String),
    Tuple(Vec<Ty>),
}

fn type_spec(t: &Ty) -> TypeSpec {
    match t {
        Ty::Kw(k) => TypeSpec::Named(*k),
        Ty::Struct(name) => TypeSpec::Struct(name.clone()),
        Ty::Tuple(tys) => TypeSpec::Tuple(Rc::new(
            tys.iter().map(|t| TupleField { name: None, ty: type_spec(t) }).collect(),
        )),
    }
}

fn keyword(name: &str) -> Option<TyKw> {
    Some(match name {
        "i8" => TyKw::I8,
        "i16" => TyKw::I16,
        "i32" => TyKw::I32,
        "i64" => TyKw::I64,
        "u8" => TyKw::U8,
        "u16" => TyKw::U16,
        "u32" => TyKw::U32,
        "u64" => TyKw::U64,
        "f32" => TyKw::F32,
        "f64" => TyKw::F64,
        "bool" => TyKw::Bool,
        "trit" => TyKw::Trit,
        "char" => TyKw::Char,
        "string" => TyKw::Str,
        "table" => TyKw::Table,
        "num" => TyKw::Num,
        "text" => TyKw::Text,
        "misc" => TyKw::Misc,
        _ => return None,
    })
}

/// The type that a function of the language returns, and the element type of a table.
fn builtin_ty(name: &str) -> (Option<Ty>, Option<Ty>) {
    let plain = |k: TyKw| (Some(Ty::Kw(k)), None);
    let table = |k: TyKw| (Some(Ty::Kw(TyKw::Table)), Some(Ty::Kw(k)));
    match name {
        "read_line" | "eval" | "eval_call" | "regex_find" | "regex_replace" | "regex_group"
        | "to_string" | "str_char" | "file_read" | "msg_t" => plain(TyKw::Str),
        "regex_match" | "file_write" | "file_append" | "file_exists" | "file_delete" => {
            plain(TyKw::Bool)
        }
        "len" | "str_len" | "parse_int" | "time_now" | "arg_count" => plain(TyKw::I64),
        "sqrt" | "pow" | "parse_float" => plain(TyKw::F64),
        "table_new_i64" => table(TyKw::I64),
        "table_new_f64" => table(TyKw::F64),
        "table_new_string" | "regex_find_all" | "list_dir" => table(TyKw::Str),
        "table_new_bool" => table(TyKw::Bool),
        _ => (None, None),
    }
}

// ---------- the parser ----------
struct Local {
    name: String,
    ty: Option<Ty>,
    elem: Option<Ty>,
}

struct Func {
    name: String,
    ret: Ty,
}

/// An expression with its type and, for a table, the type of its elements.
type Typed = (Rc<Expr>, Option<Ty>, Option<Ty>);

struct Parser {
    toks: Vec<Token>,
    at: usize,
    scopes: Vec<Vec<Local>>,
    funcs: Vec<Func>,
    classes: Vec<(String, Vec<(String, Ty)>)>,
    ns: Vec<String>,
    func: String,
    sem: Sem,
}

fn node(kind: ExprKind, ty: Option<Ty>) -> Typed {
    let note = Note { ty: ty.as_ref().map(type_spec), table: None, resolved: None };
    (Rc::new(Expr { kind, note }), ty, None)
}

fn float_of(x: f64) -> Float {
    Float { bits: x.to_bits(), text: x.to_string() }
}

fn binary_op(op: &str) -> Option<(BinaryOp, usize)> {
    Some(match op {
        "||" => (BinaryOp::Or, 1),
        "&&" => (BinaryOp::And, 2),
        "|" => (BinaryOp::BitOr, 3),
        "^" => (BinaryOp::BitXor, 4),
        "&" => (BinaryOp::BitAnd, 5),
        "==" => (BinaryOp::Eq, 6),
        "!=" => (BinaryOp::NotEq, 6),
        "<" => (BinaryOp::Lt, 7),
        ">" => (BinaryOp::Gt, 7),
        "<=" => (BinaryOp::Le, 7),
        ">=" => (BinaryOp::Ge, 7),
        "<<" => (BinaryOp::Shl, 8),
        ">>" => (BinaryOp::Shr, 8),
        "+" => (BinaryOp::Add, 9),
        "-" => (BinaryOp::Sub, 9),
        "*" => (BinaryOp::Mul, 10),
        "/" => (BinaryOp::Div, 10),
        "%" => (BinaryOp::Mod, 10),
        _ => return None,
    })
}

fn assign_op(op: &str) -> Option<Option<BinaryOp>> {
    Some(match op {
        "=" => None,
        "+=" => Some(BinaryOp::Add),
        "-=" => Some(BinaryOp::Sub),
        "*=" => Some(BinaryOp::Mul),
        "/=" => Some(BinaryOp::Div),
        "%=" => Some(BinaryOp::Mod),
        "&=" => Some(BinaryOp::BitAnd),
        "|=" => Some(BinaryOp::BitOr),
        "^=" => Some(BinaryOp::BitXor),
        "<<=" => Some(BinaryOp::Shl),
        ">>=" => Some(BinaryOp::Shr),
        _ => return None,
    })
}

impl Parser {
    fn new(toks: Vec<Token>) -> Parser {
        Parser {
            toks,
            at: 0,
            scopes: vec![Vec::new()],
            funcs: Vec::new(),
            classes: Vec::new(),
            ns: Vec::new(),
            func: String::new(),
            sem: Sem {
                globals: Vec::new(),
                classes: Vec::new(),
                funcs: Vec::new(),
                table_vars: Vec::new(),
                table_rets: Vec::new(),
            },
        }
    }

    fn peek(&self) -> &Tok {
        &self.toks[self.at].tok
    }

    fn next(&mut self) -> Tok {
        let t = self.toks[self.at].tok.clone();
        if self.at + 1 < self.toks.len() {
            self.at += 1;
        }
        t
    }

    fn is_op(&self, op: &str) -> bool {
        matches!(self.peek(), Tok::Op(o) if *o == op)
    }

    fn is_word(&self, word: &str) -> bool {
        matches!(self.peek(), Tok::Name(n) if n == word)
    }

    fn op(&mut self, op: &str) -> Result<(), String> {
        if self.is_op(op) {
            self.next();
            Ok(())
        } else {
            Err(format!("期望 '{}'，得到 {:?}", op, self.peek()))
        }
    }

    fn eat(&mut self, op: &str) -> bool {
        let hit = self.is_op(op);
        if hit {
            self.next();
        }
        hit
    }

    fn eat_word(&mut self, word: &str) -> bool {
        let hit = self.is_word(word);
        if hit {
            self.next();
        }
        hit
    }

    fn name(&mut self) -> Result<String, String> {
        match self.next() {
            Tok::Name(n) => Ok(n),
            other => Err(format!("期望名字，得到 {:?}", other)),
        }
    }

    /// The end of a simple statement.
    fn end(&mut self) -> Result<(), String> {
        if self.eat(";") || self.toks[self.at].fresh || self.is_op("}") {
            Ok(())
        } else {
            Err(format!("期望语句结束，得到 {:?}", self.peek()))
        }
    }

    fn local(&self, name: &str) -> Option<&Local> {
        self.scopes.iter().rev().flat_map(|s| s.iter().rev()).find(|l| l.name == name)
    }

    fn declare(&mut self, name: &str, ty: Option<Ty>, elem: Option<Ty>) {
        self.scopes.last_mut().unwrap().push(Local { name: name.to_string(), ty, elem });
    }

    fn func_ty(&self, full: &str) -> Option<Ty> {
        self.funcs.iter().find(|f| f.name == full).map(|f| f.ret.clone())
    }

    fn class(&self, name: &str) -> Option<&Vec<(String, Ty)>> {
        self.classes.iter().find(|c| c.0 == name).map(|c| &c.1)
    }

    fn ty(&mut self) -> Result<Ty, String> {
        let n = self.name()?;
        Ok(match keyword(&n) {
            Some(k) => Ty::Kw(k),
            None => Ty::Struct(n),
        })
    }

    // ---------- expressions ----------
    fn expr(&mut self) -> Result<Typed, String> {
        let start = self.ternary()?;
        if self.eat("..") {
            let end = self.ternary()?;
            return Ok(node(ExprKind::Range { start: start.0, end: end.0 }, None));
        }
        Ok(start)
    }

    fn ternary(&mut self) -> Result<Typed, String> {
        let cond = self.binary(1)?;
        if self.eat("?") {
            let a = self.ternary()?;
            self.op(":")?;
            let b = self.ternary()?;
            let ty = a.1.clone();
            let kind = ExprKind::Ternary { cond: cond.0, then_expr: a.0, else_expr: b.0 };
            return Ok(node(kind, ty));
        }
        Ok(cond)
    }

    fn binary(&mut self, level: usize) -> Result<Typed, String> {
        let mut lhs = self.unary()?;
        loop {
            let (op, l) = match self.peek() {
                Tok::Op(o) => match binary_op(o) {
                    Some(x) => x,
                    None => return Ok(lhs),
                },
                _ => return Ok(lhs),
            };
            if l < level {
                return Ok(lhs);
            }
            self.next();
            let rhs = self.binary(l + 1)?;
            let ty = if l == 1 || l == 2 || l == 6 || l == 7 {
                match (&lhs.1, l) {
                    (Some(Ty::Kw(TyKw::Trit)), 1) | (Some(Ty::Kw(TyKw::Trit)), 2) => lhs.1.clone(),
                    _ => Some(Ty::Kw(TyKw::Bool)),
                }
            } else {
                lhs.1.clone()
            };
            lhs = node(ExprKind::Binary { op, lhs: lhs.0, rhs: rhs.0 }, ty);
        }
    }

    fn unary(&mut self) -> Result<Typed, String> {
        let op = match self.peek() {
            Tok::Op("-") => UnaryOp::Neg,
            Tok::Op("!") => UnaryOp::Not,
            Tok::Op("++") => UnaryOp::PreInc,
            Tok::Op("--") => UnaryOp::PreDec,
            _ => return self.postfix(),
        };
        self.next();
        let e = self.unary()?;
        Ok(node(ExprKind::Unary { op, operand: e.0 }, e.1))
    }

    fn args(&mut self, close: &str) -> Result<Vec<Typed>, String> {
        let mut args = Vec::new();
        while !self.is_op(close) {
            args.push(self.expr()?);
            if !self.eat(",") {
                break;
            }
        }
        self.op(close)?;
        Ok(args)
    }

    fn postfix(&mut self) -> Result<Typed, String> {
        let mut e = self.primary()?;
        while !self.toks[self.at].fresh {
            if self.eat("[") {
                let index = self.expr()?;
                self.op("]")?;
                let elem = e.2.clone();
                e = node(ExprKind::Index { base: e.0, index: index.0 }, elem);
            } else if self.eat(".") {
                let field = self.name()?;
                if self.eat("(") {
                    e = self.method(e, field)?;
                } else {
                    let ty = match &e.1 {
                        Some(Ty::Struct(c)) => self
                            .class(c)
                            .and_then(|fs| fs.iter().find(|f| f.0 == field))
                            .map(|f| f.1.clone()),
                        Some(Ty::Tuple(tys)) => field
                            .strip_prefix("Item")
                            .and_then(|n| n.parse::<usize>().ok())
                            .and_then(|n| tys.get(n.wrapping_sub(1)))
                            .cloned(),
                        _ => None,
                    };
                    e = node(ExprKind::FieldAccess { base: e.0, field }, ty);
                }
            } else if self.eat("++") {
                e = node(ExprKind::Unary { op: UnaryOp::PostInc, operand: e.0 }, e.1);
            } else if self.eat("--") {
                e = node(ExprKind::Unary { op: UnaryOp::PostDec, operand: e.0 }, e.1);
            } else {
                break;
            }
        }
        Ok(e)
    }

    fn method(&mut self, receiver: Typed, method: String) -> Result<Typed, String> {
        let args: Vec<Rc<Expr>> = self.args(")")?.into_iter().map(|a| a.0).collect();
        let full = match (&receiver.1, &receiver.0.kind) {
            (Some(Ty::Struct(c)), _) => Some(format!("{}::{}", c, method)),
            (_, ExprKind::Var(n)) => Some(format!("{}::{}", n, method)),
            _ => None,
        };
        let ty = full.as_ref().and_then(|f| self.func_ty(f));
        let note = Note { ty: ty.as_ref().map(type_spec), table: None, resolved: full };
        let kind = ExprKind::MethodCall { receiver: receiver.0, method, args: Rc::new(args) };
        Ok((Rc::new(Expr { kind, note }), ty, None))
    }

    fn primary(&mut self) -> Result<Typed, String> {
        Ok(match self.next() {
            Tok::Int(n) => node(ExprKind::IntLit(n), Some(Ty::Kw(TyKw::I64))),
            Tok::Float(x) => {
                let kind = ExprKind::FloatLit { value: float_of(x), ir: format!("{:?}", x) };
                node(kind, Some(Ty::Kw(TyKw::F64)))
            }
            Tok::Str(s) => node(ExprKind::StrLit(s), Some(Ty::Kw(TyKw::Str))),
            Tok::Char(c) => node(ExprKind::CharLit(c), Some(Ty::Kw(TyKw::Char))),
            Tok::Name(n) => return self.named(n),
            Tok::Op("(") => {
                let first = self.expr()?;
                if self.eat(",") {
                    let mut all = vec![first];
                    all.extend(self.args(")")?);
                    let tys: Vec<Ty> = all
                        .iter()
                        .map(|e| e.1.clone().unwrap_or(Ty::Kw(TyKw::I64)))
                        .collect();
                    let fields: Exprs = Rc::new(all.into_iter().map(|e| e.0).collect());
                    return Ok(node(ExprKind::TupleLit { fields }, Some(Ty::Tuple(tys))));
                }
                self.op(")")?;
                first
            }
            Tok::Op("[") => {
                let cells = self.args("]")?;
                let elem = match cells.first() {
                    Some(c) => c.1.clone().unwrap_or(Ty::Kw(TyKw::I64)),
                    None => Ty::Kw(TyKw::I64),
                };
                let table = TableInfo {
                    elem_ty: type_spec(&elem),
                    len: cells.len(),
                    dynamic: false,
                };
                let ty = Ty::Kw(TyKw::Table);
                let note = Note {
                    ty: Some(type_spec(&ty)),
                    table: Some(table),
                    resolved: None,
                };
                let cells: Exprs = Rc::new(cells.into_iter().map(|e| e.0).collect());
                let e = Rc::new(Expr { kind: ExprKind::TableLit { cells }, note });
                (e, Some(ty), Some(elem))
            }
            other => return Err(format!("期望表达式，得到 {:?}", other)),
        })
    }

    fn named(&mut self, n: String) -> Result<Typed, String> {
        if n == "true" || n == "false" {
            return Ok(node(ExprKind::BoolLit(n == "true"), Some(Ty::Kw(TyKw::Bool))));
        }
        if n == "zero" {
            return Ok(node(ExprKind::TritLit(0), Some(Ty::Kw(TyKw::Trit))));
        }
        if let Some(k) = keyword(&n) {
            return Ok(node(ExprKind::TypeLit { ty: TypeSpec::Named(k) }, None));
        }
        if ["var", "func", "if", "else", "while", "for", "switch", "case", "return"]
            .contains(&n.as_str())
        {
            return Err(format!("期望表达式，得到 '{}'", n));
        }
        if self.is_op("::") {
            let mut segments = vec![n];
            while self.eat("::") {
                segments.push(self.name()?);
            }
            return Ok(node(ExprKind::Path { segments }, None));
        }
        if !self.toks[self.at].fresh && self.eat("(") {
            let args: Exprs = Rc::new(self.args(")")?.into_iter().map(|a| a.0).collect());
            let mut inner = self.ns.clone();
            inner.push(n.clone());
            let inner = inner.join("::");
            let (ty, elem, resolved) = if self.class(&n).is_some() {
                (Some(Ty::Struct(n.clone())), None, None)
            } else if let Some(t) = self.func_ty(&inner) {
                (Some(t), None, Some(inner))
            } else if let Some(t) = self.func_ty(&n) {
                (Some(t), None, Some(n.clone()))
            } else {
                let (t, e) = builtin_ty(&n);
                (t, e, None)
            };
            let note = Note { ty: ty.as_ref().map(type_spec), table: None, resolved };
            let e = Rc::new(Expr { kind: ExprKind::Call { name: n, args }, note });
            return Ok((e, ty, elem));
        }
        let (ty, elem) = match self.local(&n) {
            Some(l) => (l.ty.clone(), l.elem.clone()),
            None => (None, None),
        };
        let mut e = node(ExprKind::Var(n), ty);
        e.2 = elem;
        Ok(e)
    }

    // ---------- statements ----------
    fn block(&mut self) -> Result<Block, String> {
        self.op("{")?;
        self.scopes.push(Vec::new());
        let mut stmts = Vec::new();
        while !self.is_op("}") {
            if *self.peek() == Tok::End {
                return Err("期望 '}'".to_string());
            }
            stmts.push(Rc::new(self.stmt()?));
        }
        self.next();
        self.scopes.pop();
        Ok(Rc::new(stmts))
    }

    fn var(&mut self) -> Result<Stmt, String> {
        let name = self.name()?;
        let declared = if self.eat(":") { Some(self.ty()?) } else { None };
        self.op("=")?;
        let init = self.expr()?;
        self.end()?;
        if let Some(elem) = &init.2 {
            let (len, dynamic) = match &init.0.kind {
                ExprKind::TableLit { cells } => (cells.len(), false),
                _ => (0, true),
            };
            let info = TableInfo { elem_ty: type_spec(elem), len, dynamic };
            self.sem.table_vars.push(TableVar {
                func: self.func.clone(),
                name: name.clone(),
                info,
            });
        }
        let ty = match &declared {
            Some(t) => Some(t.clone()),
            None => init.1.clone(),
        };
        self.declare(&name, ty, init.2);
        Ok(Stmt::VarDecl { name, ty: declared.as_ref().map(type_spec), init: init.0 })
    }

    fn stmt(&mut self) -> Result<Stmt, String> {
        if self.eat_word("var") {
            return self.var();
        }
        if self.eat_word("if") {
            return self.if_stmt();
        }
        if self.is_word("while") || self.is_word("for") {
            return self.loop_stmt(None);
        }
        if self.eat_word("switch") {
            return self.switch();
        }
        if self.is_word("break") || self.is_word("continue") {
            let out = self.is_word("break");
            self.next();
            let label = match self.peek() {
                Tok::Name(n) if !self.toks[self.at].fresh => Some(n.clone()),
                _ => None,
            };
            if label.is_some() {
                self.next();
            }
            self.end()?;
            return Ok(if out { Stmt::Break { label } } else { Stmt::Continue { label } });
        }
        if self.eat_word("return") {
            let bare = self.toks[self.at].fresh || self.is_op(";") || self.is_op("}");
            let expr = if bare { None } else { Some(self.expr()?.0) };
            self.end()?;
            return Ok(Stmt::Return { expr });
        }
        if let (Tok::Name(label), Tok::Op(":")) =
            (self.peek().clone(), &self.toks[(self.at + 1).min(self.toks.len() - 1)].tok)
        {
            self.next();
            self.next();
            return self.loop_stmt(Some(label));
        }
        let e = self.expr()?;
        let op = match self.peek() {
            Tok::Op(o) => assign_op(o),
            _ => None,
        };
        let stmt = match op {
            None => Stmt::Expr { expr: e.0 },
            Some(op) => {
                self.next();
                let value = self.expr()?.0;
                match &e.0.kind {
                    ExprKind::Var(n) => Stmt::Assign { target: n.clone(), op, value },
                    ExprKind::Index { .. } => Stmt::IndexAssign { target: e.0, op, value },
                    ExprKind::FieldAccess { base, field } => Stmt::FieldAssign {
                        base: base.clone(),
                        field: field.clone(),
                        op,
                        value,
                    },
                    _ => return Err("赋值目标不合法".to_string()),
                }
            }
        };
        self.end()?;
        Ok(stmt)
    }

    fn if_stmt(&mut self) -> Result<Stmt, String> {
        let cond = self.expr()?.0;
        let then_branch = self.block()?;
        let else_branch = if self.eat_word("else") {
            if self.eat_word("if") {
                Rc::new(vec![Rc::new(self.if_stmt()?)])
            } else {
                self.block()?
            }
        } else {
            Rc::new(Vec::new())
        };
        Ok(Stmt::If { cond, then_branch, else_branch })
    }

    fn loop_stmt(&mut self, label: Option<String>) -> Result<Stmt, String> {
        if self.eat_word("while") {
            let cond = self.expr()?.0;
            let body = self.block()?;
            return Ok(Stmt::While { label, cond, body });
        }
        if !self.eat_word("for") {
            return Err("标签后必须是循环".to_string());
        }
        let var = self.name()?;
        if !self.eat_word("in") {
            return Err("期望 'in'".to_string());
        }
        let iter = self.expr()?;
        let ty = match &iter.2 {
            Some(t) => t.clone(),
            None => Ty::Kw(TyKw::I64),
        };
        self.scopes.push(Vec::new());
        self.declare(&var, Some(ty), None);
        let body = self.block()?;
        self.scopes.pop();
        Ok(Stmt::For { label, var, iter: iter.0, body })
    }

    fn switch(&mut self) -> Result<Stmt, String> {
        let subject = self.expr()?.0;
        self.op("{")?;
        let mut cases = Vec::new();
        let mut default_body: Block = Rc::new(Vec::new());
        while !self.is_op("}") {
            if self.eat_word("default") {
                self.op(":")?;
                default_body = self.case_body()?;
                continue;
            }
            if !self.eat_word("case") {
                return Err(format!("期望 case，得到 {:?}", self.peek()));
            }
            let mut patterns = vec![self.expr()?.0];
            while self.eat(",") {
                patterns.push(self.expr()?.0);
            }
            let when = if self.eat_word("when") { Some(self.expr()?.0) } else { None };
            self.op(":")?;
            let body = self.case_body()?;
            cases.push(SwitchCase { patterns: Rc::new(patterns), when, body });
        }
        self.next();
        Ok(Stmt::Switch { subject, cases: Rc::new(cases), default_body })
    }

    fn case_body(&mut self) -> Result<Block, String> {
        self.scopes.push(Vec::new());
        let mut stmts = Vec::new();
        while !self.is_op("}") && !self.is_word("case") && !self.is_word("default") {
            if *self.peek() == Tok::End {
                return Err("期望 '}'".to_string());
            }
            stmts.push(Rc::new(self.stmt()?));
        }
        self.scopes.pop();
        Ok(Rc::new(stmts))
    }

    // ---------- definitions ----------
    fn func_def(&mut self) -> Result<Stmt, String> {
        let name = self.name()?;
        let mut full = self.ns.clone();
        full.push(name.clone());
        let full = full.join("::");
        self.op("(")?;
        let mut params = Vec::new();
        let mut param_tys = Vec::new();
        let mut param_defaults = Vec::new();
        self.scopes.push(Vec::new());
        while !self.is_op(")") {
            let p = self.name()?;
            self.op(":")?;
            let t = self.ty()?;
            let default = if self.eat("=") { Some(self.expr()?.0) } else { None };
            self.declare(&p, Some(t.clone()), None);
            param_tys.push(type_spec(&t));
            param_defaults.push(default.clone());
            params.push(Param { name: p, ty: type_spec(&t), default });
            if !self.eat(",") {
                break;
            }
        }
        self.op(")")?;
        let ret = if self.eat("->") { self.ty()? } else { Ty::Kw(TyKw::Void) };
        self.funcs.push(Func { name: full.clone(), ret: ret.clone() });
        self.sem.funcs.push(FuncSig {
            name: full.clone(),
            param_tys,
            param_defaults,
            ret_ty: type_spec(&ret),
        });
        self.func = full;
        let body = self.block()?;
        self.scopes.pop();
        Ok(Stmt::FnDef { def: Rc::new(FnDef { name, params, ret_ty: type_spec(&ret), body }) })
    }

    fn struct_def(&mut self) -> Result<Stmt, String> {
        let name = self.name()?;
        self.op("{")?;
        let mut fields = Vec::new();
        while self.eat_word("var") {
            let f = self.name()?;
            self.op(":")?;
            let t = self.ty()?;
            self.end()?;
            fields.push((f, t));
        }
        self.op("}")?;
        self.sem.classes.push(ClassInfo {
            name: name.clone(),
            fields: fields
                .iter()
                .map(|(f, t)| ClassField { name: f.clone(), ty: type_spec(t), init: None })
                .collect(),
        });
        self.classes.push((name, fields));
        Ok(Stmt::Struct)
    }

    fn item(&mut self) -> Result<Stmt, String> {
        self.eat_word("pub");
        if self.eat_word("func") {
            return self.func_def();
        }
        if self.eat_word("struct") {
            return self.struct_def();
        }
        if self.eat_word("import") {
            self.next();
            self.end()?;
            return Ok(Stmt::Import);
        }
        if self.eat_word("using") {
            self.next();
            self.end()?;
            return Ok(Stmt::Using);
        }
        if self.eat_word("namespace") {
            let mut path = vec![self.name()?];
            while self.eat(".") || self.eat("::") {
                path.push(self.name()?);
            }
            self.op("{")?;
            let depth = self.ns.len();
            self.ns.extend(path.iter().cloned());
            let mut body = Vec::new();
            while !self.is_op("}") {
                if *self.peek() == Tok::End {
                    return Err("期望 '}'".to_string());
                }
                body.push(Rc::new(self.item()?));
            }
            self.next();
            self.ns.truncate(depth);
            return Ok(Stmt::Namespace { path, body: Rc::new(body) });
        }
        if self.eat_word("var") {
            let stmt = self.var()?;
            if let Stmt::VarDecl { name, .. } = &stmt {
                let ty = self.local(name).and_then(|l| l.ty.clone());
                let ty = ty.unwrap_or(Ty::Kw(TyKw::I64));
                self.sem.globals.push(GlobalVar { name: name.clone(), ty: type_spec(&ty) });
            }
            return Ok(stmt);
        }
        Err(format!("顶层不允许 {:?}", self.peek()))
    }

    fn program(&mut self) -> Result<Program, String> {
        let mut stmts = Vec::new();
        while *self.peek() != Tok::End {
            stmts.push(Rc::new(self.item()?));
        }
        Ok(Program { stmts: Rc::new(stmts) })
    }
}

fn parse(src: &str) -> Parsed {
    let toks = match tokens(src) {
        Ok(t) => t,
        Err(e) => return Parsed::LexError(e),
    };
    match Parser::new(toks).program() {
        Ok(p) => Parsed::Program(p),
        Err(e) => Parsed::SyntaxError(e),
    }
}

// ---------- the host ----------
/// A machine in memory: files, directories, environment, arguments.
struct Host {
    files: Vec<(String, String)>,
    dirs: Vec<String>,
    env: Vec<(String, String)>,
    args: Vec<String>,
    random: u64,
    out: String,
    exit: Option<i32>,
}

fn num(x: &Num) -> f64 {
    match x {
        Num::Int(n) => *n as f64,
        Num::Float(f) => f64::from_bits(f.bits),
    }
}

fn value_of(f: &Float) -> f64 {
    f64::from_bits(f.bits)
}

impl Host {
    fn new() -> Host {
        Host {
            files: Vec::new(),
            dirs: vec!["/work".to_string()],
            env: Vec::new(),
            args: vec!["--exact".to_string(), "你好".to_string()],
            random: seed_rng(1_754_000_000),
            out: String::new(),
            exit: None,
        }
    }

    fn file(&self, path: &str) -> Option<usize> {
        self.files.iter().position(|f| f.0 == path)
    }

    fn write(&mut self, path: &str, text: &str) {
        match self.file(path) {
            Some(i) => self.files[i].1 = text.to_string(),
            None => self.files.push((path.to_string(), text.to_string())),
        }
    }

    fn below(&self, dir: &str) -> Option<Vec<String>> {
        if !self.dirs.iter().any(|d| d == dir) {
            return None;
        }
        let head = format!("{}/", dir);
        Some(
            self.files
                .iter()
                .filter_map(|f| f.0.strip_prefix(&head).map(|n| n.to_string()))
                .collect(),
        )
    }

    fn service(&mut self, op: HostOp, args: &[String]) -> Reply {
        match op {
            HostOp::ReadLine => Reply::Text("one line".to_string()),
            HostOp::FileRead => {
                Reply::MaybeText(self.file(&args[0]).map(|i| self.files[i].1.clone()))
            }
            HostOp::FileWrite => {
                self.write(&args[0], &args[1]);
                Reply::Flag(true)
            }
            HostOp::FileAppend => {
                let before = match self.file(&args[0]) {
                    Some(i) => self.files[i].1.clone(),
                    None => String::new(),
                };
                self.write(&args[0], &format!("{}{}", before, args[1]));
                Reply::Flag(true)
            }
            HostOp::FileExists => Reply::Flag(self.file(&args[0]).is_some()),
            HostOp::FileDelete => match self.file(&args[0]) {
                Some(i) => {
                    self.files.remove(i);
                    Reply::Flag(true)
                }
                None => Reply::Flag(false),
            },
            HostOp::PrintErr => Reply::Done,
            HostOp::ListDir | HostOp::WalkDir => Reply::Names(self.below(&args[0])),
            HostOp::HttpGet => match parse_url(&args[0]) {
                Some(_) => Reply::MaybeText(Some("body".to_string())),
                None => Reply::MaybeText(None),
            },
            HostOp::ExecCode => Reply::Number(if args[0] == "true" { 0 } else { 1 }),
            HostOp::ExecOutput => match args[0].strip_prefix("echo ") {
                Some(t) => Reply::Text(format!("{}\n", t)),
                None => Reply::Text(String::new()),
            },
            HostOp::MkdirAll => {
                self.dirs.push(args[0].clone());
                Reply::Flag(true)
            }
            HostOp::RemoveDirAll => {
                let head = format!("{}/", args[0]);
                self.dirs.retain(|d| *d != args[0] && !d.starts_with(&head));
                self.files.retain(|f| !f.0.starts_with(&head));
                Reply::Flag(true)
            }
            HostOp::ByteRead => Reply::Bytes(
                self.file(&args[0]).map(|i| self.files[i].1.as_bytes().to_vec()),
            ),
            HostOp::PathAbs => Reply::Text(format!("/work/{}", args[0])),
            HostOp::Cwd => Reply::Text("/work".to_string()),
            HostOp::GetEnv => Reply::Text(
                self.env
                    .iter()
                    .rev()
                    .find(|v| v.0 == args[0])
                    .map(|v| v.1.clone())
                    .unwrap_or_default(),
            ),
            HostOp::SetEnv => {
                self.env.push((args[0].clone(), args[1].clone()));
                Reply::Done
            }
            HostOp::FileCopy => match self.file(&args[0]) {
                Some(i) => {
                    let text = self.files[i].1.clone();
                    self.write(&args[1], &text);
                    Reply::Flag(true)
                }
                None => Reply::Flag(false),
            },
            HostOp::FileMove => match self.file(&args[0]) {
                Some(i) => {
                    let (_, text) = self.files.remove(i);
                    self.write(&args[1], &text);
                    Reply::Flag(true)
                }
                None => Reply::Flag(false),
            },
            HostOp::TimeNow => Reply::Number(1_754_000_000),
            HostOp::ArgCount => Reply::Number(self.args.len() as i64),
            HostOp::HttpGetFile | HostOp::UntarGz | HostOp::Unzip | HostOp::CopyDir => {
                Reply::Flag(false)
            }
        }
    }

    fn answer(&mut self, q: &Request) -> Reply {
        match q {
            Request::Parse(code) => Reply::Parsed(parse(code)),
            Request::Print { text, newline } => {
                self.out.push_str(text);
                if *newline {
                    self.out.push('\n');
                }
                Reply::Done
            }
            Request::Host { op, args } => self.service(*op, args),
            Request::ByteWrite { path, bytes } => {
                self.write(path, &String::from_utf8_lossy(bytes));
                Reply::Flag(true)
            }
            Request::ArgString(i) => Reply::Text(
                usize::try_from(*i)
                    .ok()
                    .and_then(|i| self.args.get(i))
                    .cloned()
                    .unwrap_or_default(),
            ),
            Request::Exit(code) => {
                self.exit = Some(*code);
                Reply::Done
            }
            Request::Random => {
                self.random = next_rand(self.random);
                Reply::Random(self.random)
            }
            Request::FloatBinary { op, a, b } => {
                let (x, y) = (value_of(a), value_of(b));
                match op {
                    BinaryOp::Add => Reply::Float(float_of(x + y)),
                    BinaryOp::Sub => Reply::Float(float_of(x - y)),
                    BinaryOp::Mul => Reply::Float(float_of(x * y)),
                    BinaryOp::Div => Reply::Float(float_of(x / y)),
                    BinaryOp::Mod => Reply::Float(float_of(x % y)),
                    BinaryOp::Eq => Reply::Flag(x == y),
                    BinaryOp::NotEq => Reply::Flag(x != y),
                    BinaryOp::Lt => Reply::Flag(x < y),
                    BinaryOp::Gt => Reply::Flag(x > y),
                    BinaryOp::Le => Reply::Flag(x <= y),
                    BinaryOp::Ge => Reply::Flag(x >= y),
                    other => panic!("no float operation: {:?}", other),
                }
            }
            Request::FloatNeg(x) => Reply::Float(float_of(-value_of(x))),
            Request::FloatStep { x, up } => {
                Reply::Float(float_of(if *up { value_of(x) + 1.0 } else { value_of(x) - 1.0 }))
            }
            Request::Math { fun, x } => {
                let v = num(x);
                match fun {
                    MathFn::Sqrt => Reply::Float(float_of(v.sqrt())),
                    MathFn::Sin => Reply::Float(float_of(v.sin())),
                    MathFn::Cos => Reply::Float(float_of(v.cos())),
                    MathFn::Tan => Reply::Float(float_of(v.tan())),
                    MathFn::Exp => Reply::Float(float_of(v.exp())),
                    MathFn::Log => Reply::MaybeFloat(if v <= 0.0 {
                        None
                    } else {
                        Some(float_of(v.ln()))
                    }),
                    MathFn::Floor => Reply::Float(float_of(v.floor())),
                    MathFn::Ceil => Reply::Float(float_of(v.ceil())),
                    MathFn::Round => Reply::Float(float_of(v.round())),
                }
            }
            Request::Pow { x, y } => Reply::Float(float_of(num(x).powf(num(y)))),
            Request::ParseFloat(s) => Reply::MaybeFloat(s.parse::<f64>().ok().map(float_of)),
        }
    }
}

// ---------- the interpreter at work ----------
struct Repl {
    session: Session,
    msg: MsgState,
    host: Host,
}

impl Repl {
    fn new() -> Repl {
        Repl { session: Session::new(), msg: MsgState::default(), host: Host::new() }
    }

    fn drive(&mut self, m: Machine) -> Result<String, String> {
        let mut m = m;
        loop {
            while m.run(1_000) {}
            let reply = match &m.ctl {
                Ctl::Parse(code) => Reply::Parsed(parse(code)),
                Ctl::Ask(q, _) => self.host.answer(q),
                _ => break,
            };
            if let Some(code) = self.host.exit {
                return Err(format!("exit {}", code));
            }
            m.resume(reply);
        }
        self.session = m.session;
        self.msg = m.msg;
        match m.ctl {
            Ctl::Done(Finish::Result(s)) => Ok(s),
            Ctl::Done(Finish::Failure(s)) => Err(s),
            _ => panic!("the interpreter broke down"),
        }
    }

    fn eval(&mut self, code: &str) -> Result<String, String> {
        let session = std::mem::replace(&mut self.session, Session::new());
        let msg = std::mem::replace(&mut self.msg, MsgState::default());
        let m = session.eval(msg, code);
        self.drive(m)
    }

    fn eval_call(&mut self, name: &str, arg: &str) -> Result<String, String> {
        let session = std::mem::replace(&mut self.session, Session::new());
        let msg = std::mem::replace(&mut self.msg, MsgState::default());
        let m = session.eval_call(msg, name, arg);
        self.drive(m)
    }
}

/// One evaluation in a session of its own.
fn ev(code: &str) -> Result<String, String> {
    Repl::new().eval(code)
}

#[test]
fn eval_arithmetic() {
    assert_eq!(ev("1 + 2").unwrap(), "3");
    assert_eq!(ev("10 - 3 * 2").unwrap(), "4");
    assert_eq!(ev("7 / 2").unwrap(), "3");
    assert_eq!(ev("7 % 3").unwrap(), "1");
}

#[test]
fn eval_regex_match() {
    assert_eq!(ev("regex_match(\"hello world\", \"wo\")").unwrap(), "true");
    assert_eq!(ev("regex_match(\"hello\", \"^h\")").unwrap(), "true");
    assert_eq!(ev("regex_match(\"hello\", \"^x\")").unwrap(), "false");
    assert_eq!(ev("regex_match(\"a1b2\", \"\\\\d\")").unwrap(), "true");
    let err = ev("regex_match(\"abc\", \"[\")").unwrap_err();
    assert!(err.contains("regex_match 模式"), "错误：{err}");
}

#[test]
fn eval_regex_find() {
    assert_eq!(ev("regex_find(\"abc123def\", \"\\\\d+\")").unwrap(), "123");
    assert_eq!(ev("regex_find(\"hello\", \"lo\")").unwrap(), "lo");
    assert_eq!(ev("regex_find(\"hello\", \"xyz\")").unwrap(), "");
    let err = ev("regex_find(\"abc\", \"(\")").unwrap_err();
    assert!(err.contains("regex_find 模式"), "错误：{err}");
}

#[test]
fn eval_regex_find_all() {
    assert_eq!(
        ev("len(regex_find_all(\"a1b22c333\", \"\\\\d+\"))").unwrap(),
        "3"
    );
    assert_eq!(
        ev("regex_find_all(\"a1b22c333\", \"\\\\d+\")[0]").unwrap(),
        "1"
    );
    assert_eq!(
        ev("regex_find_all(\"a1b22c333\", \"\\\\d+\")[1]").unwrap(),
        "22"
    );
    assert_eq!(
        ev("regex_find_all(\"a1b22c333\", \"\\\\d+\")[2]").unwrap(),
        "333"
    );
    assert_eq!(ev("len(regex_find_all(\"abc\", \"\\\\d\"))").unwrap(), "0");
}

#[test]
fn eval_regex_replace() {
    assert_eq!(
        ev("regex_replace(\"a1b2c3\", \"\\\\d\", \"#\")").unwrap(),
        "a#b#c#"
    );
    assert_eq!(ev("regex_replace(\"abc\", \"x\", \"y\")").unwrap(), "abc");
    assert_eq!(
        ev("regex_replace(\"2026-08-08\", \"(\\\\d+)-(\\\\d+)-(\\\\d+)\", \"$3/$2/$1\")").unwrap(),
        "08/08/2026"
    );
}

#[test]
fn eval_regex_group() {
    assert_eq!(
        ev("regex_group(\"hello world\", \"(\\\\w+) (\\\\w+)\", 0)").unwrap(),
        "hello world"
    );
    assert_eq!(
        ev("regex_group(\"hello world\", \"(\\\\w+) (\\\\w+)\", 1)").unwrap(),
        "hello"
    );
    assert_eq!(
        ev("regex_group(\"hello world\", \"(\\\\w+) (\\\\w+)\", 2)").unwrap(),
        "world"
    );
    assert_eq!(
        ev("regex_group(\"hello world\", \"(\\\\w+) (\\\\w+)\", 5)").unwrap(),
        ""
    );
    assert_eq!(ev("regex_group(\"abc\", \"(\\\\d)\", 1)").unwrap(), "");
}

#[test]
fn eval_call_registered_functions_and_namespaces() {
    let mut s = Repl::new();
    s.eval("func process(src: string) -> string {\n    return \"[\" + src + \"]\"\n}\n")
        .unwrap();
    assert_eq!(s.eval_call("process", "hello").unwrap(), "[hello]");
    s.eval(
        "namespace mod {\n\
         \x20func upper(src: string) -> string {\n\
         \x20\x20\x20\x20return src\n\
         \x20}\n\
         }\n",
    )
    .unwrap();
    assert_eq!(s.eval_call("mod::upper", "x").unwrap(), "x");
    s.eval("func noop(src: string) {\n}\n").unwrap();
    assert_eq!(s.eval_call("noop", "any").unwrap(), "");
}

#[test]
fn eval_call_undefined_function_and_wrong_arguments() {
    let mut s = Repl::new();
    s.eval("func f(x: string) -> string {\n    return x\n}\n").unwrap();
    let err = s.eval_call("missing", "a").unwrap_err();
    assert!(err.contains("未定义的函数 'missing'"), "错误：{err}");
    s.eval("func g() -> string {\n    return \"g\"\n}\n").unwrap();
    let err = s.eval_call("g", "a").unwrap_err();
    assert!(err.contains("必须恰好接收 1 个字符串参数"), "错误：{err}");
}

#[test]
fn eval_call_from_an_expression() {
    let mut s = Repl::new();
    s.eval("func process(src: string) -> string {\n    return \"[\" + src + \"]\"\n}\n")
        .unwrap();
    assert_eq!(s.eval("eval_call(\"process\", \"hi\")").unwrap(), "[hi]");
    let err = s.eval("eval_call(\"process\")").unwrap_err();
    assert!(err.contains("eval_call 需要两个字符串参数"), "错误：{err}");
    let err = s.eval("eval_call(\"nope\", \"x\")").unwrap_err();
    assert!(err.contains("未定义的函数 'nope'"), "错误：{err}");
}

#[test]
fn eval_namespace_call() {
    let mut s = Repl::new();
    s.eval(
        "namespace tcmsg {\n\
         \x20func hello() -> string {\n\
         \x20\x20\x20\x20return \"ns hello\"\n\
         \x20}\n\
         \x20namespace error {\n\
         \x20\x20\x20\x20func hello() -> string {\n\
         \x20\x20\x20\x20\x20\x20\x20\x20return \"err hello\"\n\
         \x20\x20\x20\x20}\n\
         \x20\x20\x20\x20func inner() -> string {\n\
         \x20\x20\x20\x20\x20\x20\x20\x20return \"inner\"\n\
         \x20\x20\x20\x20}\n\
         \x20\x20\x20\x20func call_inner() -> string {\n\
         \x20\x20\x20\x20\x20\x20\x20\x20return inner()\n\
         \x20\x20\x20\x20}\n\
         \x20}\n\
         }\n",
    )
    .unwrap();
    assert_eq!(s.eval("tcmsg.hello()").unwrap(), "ns hello");
    assert_eq!(s.eval("tcmsg.error.hello()").unwrap(), "err hello");
    assert_eq!(s.eval("tcmsg.error.call_inner()").unwrap(), "inner");
}

#[test]
fn eval_ns_missing_fn_err() {
    let mut s = Repl::new();
    s.eval("namespace tcmsg {\nfunc ok() -> string {\nreturn \"x\"\n}\n}\n")
        .unwrap();
    let err = s.eval("tcmsg.missing()").unwrap_err();
    assert!(err.contains("未定义的函数 'tcmsg::missing'"), "错误：{err}");
}

#[test]
fn eval_ns_table_lit_arg() {
    let mut s = Repl::new();
    s.eval(
        "namespace tcmsg {\n\
         \x20namespace error {\n\
         \x20\x20\x20\x20func no_file(langs: table) -> string {\n\
         \x20\x20\x20\x20\x20\x20\x20\x20return \"File not found\"\n\
         \x20\x20\x20\x20}\n\
         \x20}\n\
         }\n",
    )
    .unwrap();
    assert_eq!(
        s.eval("tcmsg::error.no_file([\"zh-cn\", \"en-us\"])").unwrap(),
        "File not found"
    );
    s.eval(
        "namespace tcmsg {\n\
         \x20func count(langs: table) -> i64 {\n\
         \x20\x20\x20\x20return len(langs)\n\
         \x20}\n\
         }\n",
    )
    .unwrap();
    assert_eq!(s.eval("tcmsg.count([\"zh-cn\", \"en-us\"])").unwrap(), "2");
}

#[test]
fn eval_default_arg_omitted_and_passed() {
    let mut s = Repl::new();
    s.eval(
        "func greet(name: string, prefix: string = \"Hello\") -> string {\n\
         \x20\x20\x20\x20return prefix + \", \" + name\n\
         }\n",
    )
    .unwrap();
    assert_eq!(s.eval("greet(\"World\")").unwrap(), "Hello, World");
    assert_eq!(s.eval("greet(\"World\", \"Hi\")").unwrap(), "Hi, World");
    let err = s.eval("greet(\"World\", \"Hi\", \"x\")").unwrap_err();
    assert!(err.contains("期望 1-2 个参数"), "错误：{err}");
}

#[test]
fn eval_default_arg_tcmsg_scheme() {
    let mut s = Repl::new();
    s.eval(
        "namespace tcmsg {\n\
         \x20namespace error {\n\
         \x20\x20\x20\x20func no_file(langs: table, texts: table = []) -> string {\n\
         \x20\x20\x20\x20\x20\x20\x20\x20msg_register(\"error.no_file\", \"zh\", \"文件不存在\")\n\
         \x20\x20\x20\x20\x20\x20\x20\x20msg_register(\"error.no_file\", \"en\", \"File not found\")\n\
         \x20\x20\x20\x20\x20\x20\x20\x20if len(texts) > 0 {\n\
         \x20\x20\x20\x20\x20\x20\x20\x20\x20\x20\x20\x20return texts[0]\n\
         \x20\x20\x20\x20\x20\x20\x20\x20}\n\
         \x20\x20\x20\x20\x20\x20\x20\x20return msg_t(\"error.no_file\")\n\
         \x20\x20\x20\x20}\n\
         \x20}\n\
         }\n",
    )
    .unwrap();
    s.eval("msg_set_lang(\"en\")").unwrap();
    assert_eq!(
        s.eval("tcmsg::error.no_file([\"zh-cn\", \"en-us\"])").unwrap(),
        "File not found"
    );
    assert_eq!(
        s.eval("tcmsg::error.no_file([\"zh-cn\", \"en-us\"], [\"调用方提供的文本\"])")
            .unwrap(),
        "调用方提供的文本"
    );
}

#[test]
fn eval_msg_trio_with_fallbacks() {
    let mut s = Repl::new();
    s.eval("msg_register(\"err.no_file\", \"zh\", \"文件不存在\")").unwrap();
    s.eval("msg_register(\"err.no_file\", \"en\", \"File not found\")").unwrap();
    assert_eq!(s.eval("msg_t(\"err.no_file\")").unwrap(), "文件不存在");
    s.eval("msg_set_lang(\"en\")").unwrap();
    assert_eq!(s.eval("msg_t(\"err.no_file\")").unwrap(), "File not found");
    s.eval("msg_set_lang(\"ja\")").unwrap();
    assert_eq!(s.eval("msg_t(\"err.no_file\")").unwrap(), "文件不存在");
    assert_eq!(s.eval("msg_t(\"err.unknown\")").unwrap(), "err.unknown");
}

#[test]
fn eval_string_concat() {
    assert_eq!(ev("\"foo\" + \"bar\"").unwrap(), "foobar");
}

#[test]
fn table_index_assignment_of_dynamic_tables() {
    assert_eq!(
        ev("var t = table_new_i64(); table_push(t, 10); table_push(t, 20); t[0] = 99; t[0]").unwrap(),
        "99"
    );
    assert_eq!(
        ev("var t = table_new_i64(); table_push(t, 5); t[0] += 3; t[0]").unwrap(),
        "8"
    );
    let err = ev("var t = table_new_i64(); table_push(t, 1); t[5] = 9").unwrap_err();
    assert!(err.contains("下标越界"), "错误消息：{err}");
}

#[test]
fn eval_compare() {
    assert_eq!(ev("1 < 2").unwrap(), "true");
    assert_eq!(ev("\"abc\" == \"abc\"").unwrap(), "true");
    assert_eq!(ev("3 >= 4").unwrap(), "false");
}

#[test]
fn eval_vars() {
    assert_eq!(ev("var x = 10; x * 2").unwrap(), "20");
    assert_eq!(ev("var x = 1; x = x + 1; x").unwrap(), "2");
}

#[test]
fn eval_if_while() {
    assert_eq!(ev("if 1 < 2 { 10; } else { 20; }").unwrap(), "10");
    assert_eq!(ev("if 1 > 2 { 10; } else { 20; }").unwrap(), "20");
    assert_eq!(ev("var i = 0; while i < 3 { i = i + 1; } i").unwrap(), "3");
    assert_eq!(ev("var s = 0; for i in 1..4 { s = s + i; } s").unwrap(), "6");
}

#[test]
fn eval_switch_pattern_matching() {
    assert_eq!(ev("var x = 2; switch x { case 1, 2: 10; default: 0; }").unwrap(), "10");
    assert_eq!(ev("var x = 5; switch x { case 3..7: 20; default: 0; }").unwrap(), "20");
    assert_eq!(ev("var x = 7; switch x { case 3..7: 20; default: 0; }").unwrap(), "0");
    assert_eq!(ev("var f = false; var x = 8; switch x { case 8 when f: 30; default: 0; }").unwrap(), "0");
    assert_eq!(ev("var f = true; var x = 8; switch x { case 8 when f: 30; default: 0; }").unwrap(), "30");
    assert_eq!(ev("var c = 'b'; switch c { case 'a'..'e': 40; default: 0; }").unwrap(), "40");
    assert_eq!(ev("var s = \"hi\"; switch s { case string: 50; default: 0; }").unwrap(), "50");
    assert_eq!(ev("var f = true; var x = 4; switch x { case 1, 3..5 when f: 60; default: 0; }").unwrap(), "60");
    assert_eq!(ev("var x = 99; switch x { case 1: 1; } 0").unwrap(), "0");
}

#[test]
fn eval_functions() {
    let func = "func add(a: i64, b: i64) -> i64 { return a + b; }";
    assert_eq!(ev(func).unwrap(), "已定义 1 个函数");
    let mut s = Repl::new();
    s.eval(func).unwrap();
    assert_eq!(s.eval("add(20, 22)").unwrap(), "42");
}

#[test]
fn eval_recursion() {
    let mut s = Repl::new();
    s.eval("func fact(n: i64) -> i64 { if n <= 1 { return 1; } return n * fact(n - 1); }")
        .unwrap();
    assert_eq!(s.eval("fact(5)").unwrap(), "120");
}

#[test]
fn eval_errors() {
    assert!(ev("1 / 0").is_err());
    assert!(ev("undefined_var").is_err());
    assert!(ev("1 + true").is_err());
}

#[test]
fn eval_return_top() {
    assert_eq!(ev("return 5").unwrap(), "5");
}

#[test]
fn eval_persistent_vars() {
    let mut s = Repl::new();
    s.eval("var x = 1").unwrap();
    assert_eq!(s.eval("x + 1").unwrap(), "2");
}

#[test]
fn eval_bitwise() {
    assert_eq!(ev("5 & 3").unwrap(), "1");
    assert_eq!(ev("5 | 8").unwrap(), "13");
    assert_eq!(ev("5 ^ 1").unwrap(), "4");
    assert_eq!(ev("8 >> 2").unwrap(), "2");
    assert_eq!(ev("1 << 3").unwrap(), "8");
    assert_eq!(ev("-8 >> 2").unwrap(), "-2");
    assert!(ev("1 << 64").is_err());
}

#[test]
fn eval_compound_assign() {
    assert_eq!(ev("var x: i64 = 1; x += 2; x").unwrap(), "3");
    assert_eq!(ev("var x: i64 = 12; x -= 1; x").unwrap(), "11");
    assert_eq!(ev("var x: i64 = 3; x *= 4; x").unwrap(), "12");
    assert_eq!(ev("var x: i64 = 10; x /= 2; x").unwrap(), "5");
    assert_eq!(ev("var x: i64 = 5; x %= 3; x").unwrap(), "2");
    assert_eq!(ev("var x: i64 = 5; x &= 3; x").unwrap(), "1");
    assert_eq!(ev("var x: i64 = 5; x |= 8; x").unwrap(), "13");
    assert_eq!(ev("var x: i64 = 5; x ^= 1; x").unwrap(), "4");
    assert_eq!(ev("var x: i64 = 1; x <<= 3; x").unwrap(), "8");
    assert_eq!(ev("var x: i64 = 8; x >>= 2; x").unwrap(), "2");
    assert_eq!(ev("var s = \"a\"; s += \"b\"; s").unwrap(), "ab");
}

#[test]
fn eval_ternary() {
    assert_eq!(ev("1 > 0 ? 10 : 20").unwrap(), "10");
    assert_eq!(ev("1 < 0 ? 10 : 20").unwrap(), "20");
    assert_eq!(ev("var x: i64 = 5; (x > 0 ? 1 : 0) + 1").unwrap(), "2");
}

#[test]
fn eval_inc_dec() {
    assert_eq!(ev("var x = 1; x++; x").unwrap(), "2");
    assert_eq!(ev("var x = 1; ++x; x").unwrap(), "2");
    assert_eq!(ev("var x = 2; x--; x").unwrap(), "1");
    assert_eq!(ev("var x = 2; --x; x").unwrap(), "1");
    assert_eq!(ev("var x = 1; x++ + x").unwrap(), "3");
    assert_eq!(ev("var x = 1; ++x + x").unwrap(), "4");
    assert_eq!(ev("var x = 1.5; x++; x").unwrap(), "2.5");
}

#[test]
fn trit_literals_and_formatting() {
    assert_eq!(ev("zero").unwrap(), "0");
    assert_eq!(ev("to_string(zero)").unwrap(), "0");
    assert_eq!(ev("to_string(parse_trit(\"1\"))").unwrap(), "1");
    assert_eq!(ev("to_string(parse_trit(\"-1\"))").unwrap(), "-1");
    let err = ev("parse_trit(\"2\")").unwrap_err();
    assert!(err.contains("不是合法的 trit"), "错误消息：{err}");
}

#[test]
fn trit_kleene_truth_table() {
    assert_eq!(ev("var a: trit = true; var b: trit = true; to_string(a && b)").unwrap(), "1");
    assert_eq!(ev("var a: trit = true; var b: trit = zero; to_string(a && b)").unwrap(), "0");
    assert_eq!(ev("var a: trit = true; var b: trit = false; to_string(a && b)").unwrap(), "-1");
    assert_eq!(ev("var a: trit = zero; var b: trit = false; to_string(a && b)").unwrap(), "-1");
    assert_eq!(ev("var a: trit = false; var b: trit = true; to_string(a || b)").unwrap(), "1");
    assert_eq!(ev("var a: trit = false; var b: trit = zero; to_string(a || b)").unwrap(), "0");
    assert_eq!(ev("var a: trit = false; var b: trit = false; to_string(a || b)").unwrap(), "-1");
    assert_eq!(ev("var a: trit = true; to_string(!a)").unwrap(), "-1");
    assert_eq!(ev("var a: trit = false; to_string(!a)").unwrap(), "1");
    assert_eq!(ev("var a: trit = zero; to_string(!a)").unwrap(), "0");
}

#[test]
fn trit_saturating_arithmetic_and_i64() {
    assert_eq!(ev("var a: trit = true; var b: trit = true; to_string(a + b)").unwrap(), "1");
    assert_eq!(ev("var a: trit = true; var b: trit = false; to_string(a - b)").unwrap(), "1");
    assert_eq!(ev("var a: trit = true; var b: trit = true; to_string(a * b)").unwrap(), "1");
    assert_eq!(ev("var a: trit = true; var b: trit = true; to_string(a - b)").unwrap(), "0");
    assert_eq!(ev("var a: trit = true; to_string(a + 5)").unwrap(), "6");
    assert_eq!(ev("var a: trit = false; to_string(5 + a)").unwrap(), "4");
    assert_eq!(ev("var a: trit = true; var b: trit = false; (a > b) ? \"1\" : \"0\"").unwrap(), "1");
    assert_eq!(ev("var a: trit = true; (a == 1) ? \"1\" : \"0\"").unwrap(), "1");
    assert_eq!(ev("var a: trit = false; (a == 1) ? \"1\" : \"0\"").unwrap(), "0");
    let err = ev("var a: trit = true; var b: trit = true; to_string(a / b)").unwrap_err();
    assert!(err.contains("trit 不支持除"), "错误消息：{err}");
}

#[test]
fn builtin_path_join_basename_dirname() {
    let p = ev("path_join(\"a\", \"b\")").unwrap();
    assert!(p == "a\\b" || p == "a/b");
    let p2 = ev("path_join(\"a\", \"\")").unwrap();
    assert!(p2 == "a\\" || p2 == "a/");
    assert_eq!(ev("path_basename(\"a/b/c.txt\")").unwrap(), "c.txt");
    assert_eq!(ev("path_basename(\"c.txt\")").unwrap(), "c.txt");
    let d = ev("path_dirname(\"a/b/c.txt\")").unwrap();
    assert!(d == "a\\b" || d == "a/b");
    assert_eq!(ev("path_dirname(\"c.txt\")").unwrap(), "");
}

#[test]
fn builtin_path_abs_normalize_cwd() {
    let abs = ev("path_abs(\"x.txt\")").unwrap();
    let cwd = ev("cwd()").unwrap();
    assert!(abs.starts_with(&cwd));
    assert!(!cwd.is_empty());
    let n = ev("path_normalize(\"a/./b/../c\")").unwrap();
    assert!(n == "a\\c" || n == "a/c");
    let n2 = ev("path_normalize(\"abc\")").unwrap();
    assert_eq!(n2, "abc");
}

#[test]
fn builtin_env_get_set() {
    let code = "set_env(\"TIE_TEST_VAR\", \"hello\"); get_env(\"TIE_TEST_VAR\")";
    assert_eq!(ev(code).unwrap(), "hello");
    assert_eq!(ev("get_env(\"TIE_NO_SUCH_VAR_XYZ\")").unwrap(), "");
    let code2 = "set_env(\"TIE_TEST_VAR\", \"\"); get_env(\"TIE_TEST_VAR\")";
    assert_eq!(ev(code2).unwrap(), "");
}

#[test]
fn builtin_http_get_failure_errors() {
    let err = ev("http_get(\"https://example.com\")").unwrap_err();
    assert!(err.contains("运行时错误: http_get 无法访问 URL"));
}

#[test]
fn builtin_str_char_index_and_utf8() {
    assert_eq!(ev("str_char(\"hello\", 1)").unwrap(), "e");
    assert_eq!(ev("str_char(\"你好\", 0)").unwrap(), "你");
    assert_eq!(ev("str_char(\"你好\", 1)").unwrap(), "好");
    assert_eq!(ev("str_char(\"a你b\", 1)").unwrap(), "你");
    assert_eq!(ev("str_char(\"hello\", 5)").unwrap(), "");
    assert_eq!(ev("str_char(\"hello\", 99)").unwrap(), "");
    assert_eq!(ev("str_char(\"hello\", -1)").unwrap(), "");
}

#[test]
fn builtin_to_string_numeric() {
    assert_eq!(ev("to_string(42)").unwrap(), "42");
    assert_eq!(ev("to_string(-7)").unwrap(), "-7");
    assert_eq!(ev("to_string(0)").unwrap(), "0");
    assert_eq!(ev("to_string(3.14)").unwrap(), "3.14");
    assert_eq!(ev("to_string(1.0)").unwrap(), "1");
    assert_eq!(ev("to_string(0.5)").unwrap(), "0.5");
}

#[test]
fn builtin_parse_int_valid_invalid() {
    assert_eq!(ev("parse_int(\"123\")").unwrap(), "123");
    assert_eq!(ev("parse_int(\"-42\")").unwrap(), "-42");
    assert_eq!(ev("parse_int(\"0\")").unwrap(), "0");
    let err = ev("parse_int(\"abc\")").unwrap_err();
    assert!(err.contains("运行时错误: parse_int 参数 'abc' 不是合法的整数"));
    let err2 = ev("parse_int(\"12abc\")").unwrap_err();
    assert!(err2.contains("不是合法的整数"));
}

#[test]
fn builtin_parse_float_valid_invalid() {
    assert_eq!(ev("parse_float(\"3.5\")").unwrap(), "3.5");
    assert_eq!(ev("parse_float(\"-0.25\")").unwrap(), "-0.25");
    assert_eq!(ev("parse_float(\"2\")").unwrap(), "2");
    let err = ev("parse_float(\"abc\")").unwrap_err();
    assert!(err.contains("运行时错误: parse_float 参数 'abc' 不是合法的浮点数"));
}

#[test]
fn builtin_time_now_positive() {
    let t: i64 = ev("time_now()").unwrap().parse().unwrap();
    assert!(t > 0);
}

#[test]
fn builtin_rand_range_bounds() {
    for _ in 0..100 {
        let v: i64 = ev("rand_range(5, 10)").unwrap().parse().unwrap();
        assert!((5..10).contains(&v), "rand_range(5,10) 返回 {v} 越界");
    }
    assert_eq!(ev("rand_range(7, 8)").unwrap(), "7");
    let v: i64 = ev("rand_range(-10, 0)").unwrap().parse().unwrap();
    assert!((-10..0).contains(&v));
}

#[test]
fn builtin_rand_range_invalid_errors() {
    let err = ev("rand_range(5, 5)").unwrap_err();
    assert!(err.contains("运行时错误: rand_range 参数范围无效"));
    let err2 = ev("rand_range(10, 5)").unwrap_err();
    assert!(err2.contains("运行时错误: rand_range 参数范围无效"));
}

#[test]
fn builtin_math_sqrt() {
    assert_eq!(ev("sqrt(4)").unwrap(), "2");
    assert_eq!(ev("sqrt(2.25)").unwrap(), "1.5");
    assert_eq!(ev("sqrt(-1)").unwrap(), "NaN");
}

#[test]
fn builtin_math_sin_cos_tan() {
    assert_eq!(ev("sin(0)").unwrap(), "0");
    assert_eq!(ev("cos(0)").unwrap(), "1");
    assert_eq!(ev("tan(0)").unwrap(), "0");
    let v: f64 = ev("sin(1.5707963267948966)").unwrap().parse().unwrap();
    assert!((v - 1.0).abs() < 1e-12);
}

#[test]
fn builtin_math_exp_log() {
    assert_eq!(ev("exp(0)").unwrap(), "1");
    assert_eq!(ev("log(1)").unwrap(), "0");
    assert_eq!(ev("log(2.718281828459045)").unwrap(), "1");
    let err = ev("log(0)").unwrap_err();
    assert!(err.contains("运行时错误: log 参数必须大于 0"));
    let err2 = ev("log(-1)").unwrap_err();
    assert!(err2.contains("运行时错误: log 参数必须大于 0"));
}

#[test]
fn builtin_math_pow() {
    assert_eq!(ev("pow(2, 3)").unwrap(), "8");
    assert_eq!(ev("pow(2, 0.5)").unwrap(), "1.4142135623730951");
    assert_eq!(ev("pow(10, 2)").unwrap(), "100");
}

#[test]
fn builtin_math_floor_ceil_round() {
    assert_eq!(ev("floor(3.7)").unwrap(), "3");
    assert_eq!(ev("floor(-3.7)").unwrap(), "-4");
    assert_eq!(ev("ceil(3.2)").unwrap(), "4");
    assert_eq!(ev("ceil(-3.2)").unwrap(), "-3");
    assert_eq!(ev("round(3.5)").unwrap(), "4");
    assert_eq!(ev("round(2.5)").unwrap(), "3");
    assert_eq!(ev("round(-2.5)").unwrap(), "-3");
}

#[test]
fn builtin_len_table() {
    assert_eq!(ev("len([1, 2, 3])").unwrap(), "3");
    assert_eq!(ev("len([])").unwrap(), "0");
    assert_eq!(ev("len([\"a\", \"b\"])").unwrap(), "2");
    assert_eq!(ev("len(\"hello\")").unwrap(), "5");
}

#[test]
fn dyn_table_new_push_len() {
    let code = r#"
        var t: table = table_new_i64()
        var i: i64 = 1
        while i <= 100 {
            table_push(t, i)
            i = i + 1
        }
        len(t)
    "#;
    assert_eq!(ev(code).unwrap(), "100");
    assert_eq!(ev("len(table_new_i64())").unwrap(), "0");
}

#[test]
fn dyn_table_at_reads_element() {
    let code = r#"
        var t: table = table_new_i64()
        table_push(t, 10)
        table_push(t, 20)
        table_push(t, 30)
        table_at(t, 1)
    "#;
    assert_eq!(ev(code).unwrap(), "20");
    let code2 = r#"
        var t: table = table_new_i64()
        table_push(t, 7)
        table_push(t, 8)
        t[0]
    "#;
    assert_eq!(ev(code2).unwrap(), "7");
}

#[test]
fn dyn_table_at_out_of_bounds_errors() {
    let code = r#"
        var t: table = table_new_i64()
        table_push(t, 1)
        table_at(t, 5)
    "#;
    let err = ev(code).unwrap_err();
    assert!(err.contains("运行时错误: table_at 下标越界：索引 5 超出长度 1"), "实际: {err}");
    let err2 = ev("table_at(table_new_i64(), -1)").unwrap_err();
    assert!(err2.contains("运行时错误: table_at 下标越界"), "实际：{err2}");
}

#[test]
fn dyn_table_string_build_and_for() {
    let code = r#"
        var t: table = table_new_string()
        table_push(t, "a")
        table_push(t, "b")
        table_push(t, "c")
        var out = ""
        for x in t {
            out = out + x
        }
        out
    "#;
    assert_eq!(ev(code).unwrap(), "abc");
    let code2 = r#"
        var t: table = table_new_string()
        table_push(t, "hello")
        table_push(t, "world")
        table_at(t, 1)
    "#;
    assert_eq!(ev(code2).unwrap(), "world");
}

#[test]
fn dyn_table_bool_and_f64() {
    let code = r#"
        var t: table = table_new_bool()
        table_push(t, true)
        table_push(t, false)
        table_at(t, 0)
    "#;
    assert_eq!(ev(code).unwrap(), "true");
    let code2 = r#"
        var t: table = table_new_f64()
        table_push(t, 1.5)
        table_push(t, 2.5)
        len(t)
    "#;
    assert_eq!(ev(code2).unwrap(), "2");
}

#[test]
fn builtin_file_write_read_roundtrip() {
    let path = "/work/roundtrip.txt";
    let code = format!(
        "var w = file_write(\"{path}\", \"hello\\n你好\\n\"); \
         var r = file_read(\"{path}\"); \
         (w ? \"ok\" : \"fail\") + \":\" + r"
    );
    assert_eq!(ev(&code).unwrap(), "ok:hello\n你好\n");
}

#[test]
fn builtin_file_append_grows() {
    let path = "/work/append.txt";
    let code = format!(
        "file_write(\"{path}\", \"line1\\n\"); \
         file_append(\"{path}\", \"line2\\n\"); \
         file_read(\"{path}\")"
    );
    assert_eq!(ev(&code).unwrap(), "line1\nline2\n");
}

#[test]
fn builtin_file_exists_true_false() {
    let path = "/work/exists.txt";
    let code = format!(
        "var a = file_exists(\"{path}\"); \
         file_write(\"{path}\", \"x\"); \
         var b = file_exists(\"{path}\"); \
         (a ? \"0\" : \"1\") + (b ? \"1\" : \"0\")"
    );
    assert_eq!(ev(&code).unwrap(), "11");
}

#[test]
fn builtin_file_delete_removes_and_missing_false() {
    let path = "/work/delete.txt";
    let code = format!(
        "file_write(\"{path}\", \"x\"); \
         var a = file_delete(\"{path}\"); \
         var b = file_exists(\"{path}\"); \
         var c = file_delete(\"{path}\"); \
         (a ? \"1\" : \"0\") + (b ? \"1\" : \"0\") + (c ? \"1\" : \"0\")"
    );
    assert_eq!(ev(&code).unwrap(), "100");
    assert_eq!(ev("file_delete(\"/work/never.txt\")").unwrap(), "false");
}

#[test]
fn builtin_file_read_missing_errors() {
    let err = ev("file_read(\"/work/missing.txt\")").unwrap_err();
    assert!(err.contains("运行时错误: file_read 无法读取文件"));
}

#[test]
fn builtin_list_dir_lists_entries() {
    let mut s = Repl::new();
    for name in ["a", "b", "c"] {
        s.host.write(&format!("/work/{name}.txt"), name);
    }
    let code = r#"var t = list_dir("/work")
var n = len(t)
var names: string = ""
for x in t {
    names = names + x + ","
}
to_string(n) + ":" + names"#;
    let out = s.eval(code).unwrap();
    assert!(out.starts_with("3:"), "{out}");
    for name in ["a.txt", "b.txt", "c.txt"] {
        assert!(out.contains(name), "{out}");
    }
}

#[test]
fn builtin_list_dir_empty_dir() {
    assert_eq!(ev("len(list_dir(\"/work\"))").unwrap(), "0");
}

#[test]
fn builtin_list_dir_missing_dir_errors() {
    let err = ev("list_dir(\"/nowhere\")").unwrap_err();
    assert!(err.contains("运行时错误: list_dir 无法读取目录"));
}

#[test]
fn builtin_exec_code_output() {
    assert_eq!(ev("exec_code(\"true\")").unwrap(), "0");
    assert!(ev("exec_output(\"echo hello\")").unwrap().contains("hello"));
}

#[test]
fn builtin_file_copy_move_delete() {
    let mut s = Repl::new();
    let (src, dst, moved) = ("/work/copy_src.txt", "/work/copy_dst.txt", "/work/move_dst.txt");
    let code = format!(
        "file_write(\"{src}\", \"abc\"); file_copy(\"{src}\", \"{dst}\"); file_read(\"{dst}\")"
    );
    assert_eq!(s.eval(&code).unwrap(), "abc");
    let code = format!(
        "file_move(\"{dst}\", \"{moved}\"); (file_exists(\"{dst}\") ? \"0\" : \"1\") + \
         (file_exists(\"{moved}\") ? \"1\" : \"0\")"
    );
    assert_eq!(s.eval(&code).unwrap(), "11");
}

#[test]
fn builtin_dir_operations_and_walk() {
    let mut s = Repl::new();
    let sub = "/work/walk/a/b";
    let code = format!(
        "var m = mkdir_all(\"{sub}\"); \
         var f = file_write(path_join(\"{sub}\", \"x.txt\"), \"1\"); \
         var w = walk_dir(\"{sub}\"); \
         (m ? \"1\" : \"0\") + (f ? \"1\" : \"0\") + \":\" + to_string(len(w))"
    );
    let out = s.eval(&code).unwrap();
    assert!(out.starts_with("11:1"), "{out}");
    let err = s.eval("walk_dir(\"/work/walk_missing\")").unwrap_err();
    assert!(err.contains("运行时错误: walk_dir 无法读取目录"));
    assert_eq!(s.eval(&format!("remove_dir_all(\"{sub}\")")).unwrap(), "true");
}

#[test]
fn builtin_exit_terminates_process() {
    let mut s = Repl::new();
    assert_eq!(s.eval("exit(7)").unwrap_err(), "exit 7");
    assert_eq!(s.host.exit, Some(7));
}

#[test]
fn builtin_arg_count_matches_env() {
    let want = Host::new().args.len() as i64;
    let got: i64 = ev("arg_count()").unwrap().parse().unwrap();
    assert_eq!(got, want);
}

#[test]
fn builtin_arg_string_matches_env() {
    let args = Host::new().args;
    for (i, want) in args.iter().enumerate() {
        assert_eq!(ev(&format!("arg_string({i})")).unwrap(), *want);
    }
    assert_eq!(ev(&format!("arg_string({})", args.len())).unwrap(), "");
    assert_eq!(ev("arg_string(999999999)").unwrap(), "");
    assert_eq!(ev("arg_string(-1)").unwrap(), "");
}

// ---------- the code generator at work ----------
/// The code of a program, or the complaint of the stage that refuses it.
fn generate(src: &str) -> Result<IrOutput, String> {
    let toks = tokens(src)?;
    let mut parser = Parser::new(toks);
    let program = parser.program()?;
    gen_ir(&program, &parser.sem).map_err(|e| e.display())
}

fn compiled(src: &str) -> IrOutput {
    generate(src).unwrap()
}

fn compiled_ir(src: &str) -> String {
    compiled(src).ir
}

fn pipeline(src: &str) -> Result<String, String> {
    generate(src).map(|o| o.ir)
}

#[test]
fn break_continue_branches() {
    let ir = compiled_ir("func main() {\n    var i = 0\n    while true {\n        i = i + 1\n        if i == 3 { break; }\n    }\n    println(i)\n}");
    assert!(ir.contains("br label %loop.exit."), "break 应跳 loop.exit");
    let ir2 = compiled_ir("func main() {\n    var i = 0\n    while i < 10 {\n        i = i + 1\n        if i % 2 == 0 { continue; }\n        println(i)\n    }\n}");
    assert!(ir2.contains("br label %loop.cond."), "continue 应跳 loop.cond");
    let ir3 = compiled_ir("func main() {\n    for i in 0..10 {\n        if i == 2 { continue; }\n        if i == 8 { break; }\n        println(i)\n    }\n}");
    assert!(ir3.contains("br label %for.step."), "for 的 continue 应跳 for.step");
    assert!(ir3.contains("br label %for.exit."), "for 的 break 应跳 for.exit");
    let ir4 = compiled_ir("func main() {\n    for i in 0..3 {\n        if i == 1 { continue; }\n        break;\n    }\n}");
    assert!(ir4.contains("for.step."), "范围 for 应有 step 块");
}

#[test]
fn break_continue_labels() {
    let ir = compiled_ir("func main() {\n    outer: for a in 0..3 {\n        for b in 0..3 {\n            if a == 1 && b == 1 { break outer; }\n            println(a * 10 + b)\n        }\n    }\n}");
    assert!(ir.contains("for.exit."), "外层循环应有 exit 块");
    assert!(ir.matches("br label %for.exit.").count() >= 1, "应有 br 到外层 exit");
    let ir2 = compiled_ir("func main() {\n    var n = 0\n    outer: for a in 0..3 {\n        for b in 0..3 {\n            if b == 1 { continue outer; }\n            n = n + 1\n        }\n    }\n    println(n)\n}");
    assert!(ir2.matches("for.step.").count() >= 2, "内外两层 for 都应有 step 块");
}

#[test]
fn module_header_and_runtime_declarations() {
    let ir = compiled_ir("func main() {}");
    assert!(ir.contains("; ModuleID = 'tie'"));
    assert!(ir.contains("source_filename = \"input.tie\""));
    assert!(ir.contains("declare i32 @printf(ptr, ...)"));
    assert!(ir.contains("declare i64 @strlen(ptr)"));
    assert!(ir.contains("declare i32 @strcmp(ptr, ptr)"));
    assert!(ir.contains("declare ptr @malloc(i64)"));
    assert!(ir.contains("declare void @llvm.memcpy.p0.p0.i64(ptr, ptr, i64, i1)"));
    assert!(!ir.contains("tie_read_line"));
    assert!(!ir.contains("tie_eval_expr"));
}

#[test]
fn repl_builtins_call_the_interpreter() {
    let out = compiled("func main() {\n    var line = read_line()\n    println(line)\n}");
    assert!(out.ir.contains("call ptr @tie_read_line()"));
    assert!(out.ir.contains("declare ptr @tie_read_line()"));
    assert!(out.used_externs.contains(&"tie_read_line".to_string()));
    let out2 = compiled("func main() {\n    var r = eval(\"1 + 2\")\n    println(r)\n}");
    assert!(out2.ir.contains("call ptr @tie_eval_expr(ptr "));
    assert!(out2.ir.contains("declare ptr @tie_eval_expr(ptr)"));
    assert!(out2.used_externs.contains(&"tie_eval_expr".to_string()));
    let out3 = compiled("func main() {\n    eval(\"var x = 1\")\n}");
    assert!(out3.ir.contains("call void @tie_free_result(ptr %"));
    assert!(out3.used_externs.contains(&"tie_free_result".to_string()));
    let out4 = compiled("func main() {\n    print(42)\n}");
    assert!(out4.ir.contains("@printf(ptr @.str."));
    let out5 = compiled("func main() {\n    println(1)\n}");
    assert!(out5.used_externs.is_empty());
}

#[test]
fn regex_builtins_call_the_bridge() {
    let out = compiled("func main() {\n    var m = regex_match(\"abc\", \"a\")\n    println(m)\n}");
    assert!(out.ir.contains("call i8 @tie_regex_match(ptr "));
    assert!(out.ir.contains("declare i8 @tie_regex_match(ptr, ptr, ptr)"));
    assert!(out.used_externs.contains(&"tie_regex_match".to_string()));
    let out2 = compiled("func main() {\n    var f = regex_find(\"a1b2\", \"\\\\d\")\n    println(f)\n}");
    assert!(out2.ir.contains("call ptr @tie_regex_find(ptr "));
    assert!(out2.ir.contains("declare ptr @tie_regex_find(ptr, ptr)"));
    assert!(out2.used_externs.contains(&"tie_regex_find".to_string()));
    let out3 = compiled("func main() {\n    var t = regex_find_all(\"a1b2\", \"\\\\d\")\n    println(len(t))\n}");
    assert!(out3.ir.contains("call ptr @tie_regex_find_all(ptr "));
    assert!(out3.ir.contains("declare ptr @tie_regex_find_all(ptr, ptr)"));
    assert!(out3.used_externs.contains(&"tie_regex_find_all".to_string()));
    let out4 = compiled("func main() {\n    var r = regex_replace(\"a1b2\", \"\\\\d\", \"#\")\n    println(r)\n}");
    assert!(out4.ir.contains("call ptr @tie_regex_replace(ptr "));
    assert!(out4.ir.contains("declare ptr @tie_regex_replace(ptr, ptr, ptr)"));
    assert!(out4.used_externs.contains(&"tie_regex_replace".to_string()));
    let out5 = compiled("func main() {\n    var g = regex_group(\"a1\", \"(\\\\d)\", 1)\n    println(g)\n}");
    assert!(out5.ir.contains("call ptr @tie_regex_group(ptr "));
    assert!(out5.ir.contains("declare ptr @tie_regex_group(ptr, ptr, i64)"));
    assert!(out5.used_externs.contains(&"tie_regex_group".to_string()));
    let out6 = compiled("func main() {\n    regex_find(\"abc\", \"b\")\n}");
    assert!(out6.ir.contains("call void @tie_free_result(ptr %"));
}

#[test]
fn eval_call_calls_the_bridge() {
    let out = compiled("func main() {\n    var r = eval_call(\"process\", \"src\")\n    println(r)\n}");
    assert!(out.ir.contains("call ptr @tie_eval_call(ptr "));
    assert!(out.ir.contains("declare ptr @tie_eval_call(ptr, ptr)"));
    assert!(out.used_externs.contains(&"tie_eval_call".to_string()));
    let out2 = compiled("func main() {\n    println(1)\n}");
    assert!(!out2.ir.contains("tie_eval_call"));
    let out3 = compiled("func main() {\n    eval_call(\"process\", \"src\")\n}");
    assert!(out3.ir.contains("call void @tie_free_result(ptr %"));
}

#[test]
fn file_delete_calls_remove() {
    let out = compiled("func main() {\n    var ok = file_delete(\"x.txt\")\n    println(ok)\n}");
    assert!(out.ir.contains("call i32 @remove(ptr "));
    assert!(out.ir.contains("declare i32 @remove(ptr)"));
    assert!(out.ir.contains("= icmp eq i32 %"));
    let out2 = compiled("func main() {\n    file_delete(\"x.txt\")\n}");
    assert!(out2.ir.contains("call i32 @remove(ptr "));
}

#[test]
fn function_definition_signature_and_entry() {
    let ir = compiled_ir("func add(a: i64, b: i64) -> i64 {\n    return a + b\n}\nfunc main() {}");
    assert!(ir.contains("define i64 @add(i64 %a, i64 %b) {"));
    assert!(ir.contains("entry:"));
    assert!(ir.contains("ret i64 %"));
}

#[test]
fn variable_declaration_alloca_and_store() {
    let ir = compiled_ir("func main() {\n    var x: i64 = 42\n    var y: i64 = x + 1\n}");
    assert!(ir.contains("= alloca i64"));
    assert!(ir.contains("store i64 42, ptr %"));
}

#[test]
fn arithmetic_add_and_mul() {
    let ir = compiled_ir("func main() {\n    var x: i64 = (3 + 4) * 5\n}");
    assert!(ir.contains("= add i64 3, 4"));
    assert!(ir.contains("= mul i64 %"));
}

#[test]
fn user_function_call() {
    let ir = compiled_ir("func add(a: i64, b: i64) -> i64 {\n    return a + b\n}\nfunc main() {\n    var r: i64 = add(1, 2)\n    println(r)\n}");
    assert!(ir.contains("call i64 @add(i64 1, i64 2)"));
}

#[test]
fn if_statement_three_blocks() {
    let ir = compiled_ir("func main() {\n    var x: i64 = 3\n    if x > 1 {\n        println(1)\n    } else {\n        println(0)\n    }\n}");
    assert!(ir.contains("= icmp sgt i64"));
    assert!(ir.contains("br i1 %"));
    assert!(ir.contains("if.then."));
    assert!(ir.contains("if.else."));
    assert!(ir.contains("if.merge."));
}

#[test]
fn while_loop_three_blocks() {
    let ir = compiled_ir("func main() {\n    var i: i64 = 0\n    while i < 3 {\n        i = i + 1\n    }\n}");
    assert!(ir.contains("br label %loop.cond."));
    assert!(ir.contains("loop.cond."));
    assert!(ir.contains("loop.body."));
    assert!(ir.contains("loop.exit."));
    assert!(ir.contains("= icmp slt i64"));
}

#[test]
fn for_range_three_blocks_and_end() {
    let ir = compiled_ir("func main() {\n    for i in 0..10 {\n        println(i)\n    }\n}");
    assert!(ir.contains("for.cond."));
    assert!(ir.contains("for.body."));
    assert!(ir.contains("for.exit."));
    assert!(ir.contains("= icmp sge i64"));
    assert!(ir.contains("= add i64 %"));
}

#[test]
fn table_iteration_counter_loop() {
    let ir = compiled_ir("func main() {\n    var arr: table = [10, 20, 30]\n    for item in arr {\n        println(item)\n    }\n}");
    assert!(ir.contains("for.cond."));
    assert!(ir.contains("for.body."));
    assert!(ir.contains("for.exit."));
    assert!(ir.contains("getelementptr [3 x i64], ptr %"));
    assert!(ir.contains("= load i64, ptr %"));
}

#[test]
fn switch_jump_table() {
    let ir = compiled_ir("func main() {\n    var n: i64 = 2\n    switch n {\n        case 1:\n            println(1)\n        case 2:\n            println(2)\n        default:\n            println(0)\n    }\n}");
    assert!(ir.contains("switch i64 %"), "应生成 switch 指令");
    assert!(ir.contains("i64 1, label %sw.body."), "case 1 跳转条目");
    assert!(ir.contains("i64 2, label %sw.body."), "case 2 跳转条目");
    assert!(ir.contains("sw.default."), "default 标签");
    assert!(ir.contains("sw.exit."), "exit 标签");
    assert!(!ir.contains("sw.cmp."), "整数常量 case 不应生成比较链");
}

#[test]
fn switch_guard_comparison_chain() {
    let ir = compiled_ir("func main() {\n    var n: i64 = 8\n    var flag = true\n    switch n {\n        case 8 when flag:\n            println(8)\n        default:\n            println(0)\n    }\n}");
    assert!(ir.contains("sw.cmp."), "守卫场景应保留比较链");
    assert!(ir.contains("= icmp eq i64"));
    assert!(ir.contains("= and i1"));
}

#[test]
fn switch_many_values_or() {
    let ir = compiled_ir("func main() {\n    var n: i64 = 2\n    switch n {\n        case 1, 2:\n            println(12)\n        default:\n            println(0)\n    }\n}");
    assert!(ir.contains("= icmp eq i64"));
    assert!(ir.contains("= or i1"));
}

#[test]
fn switch_range_and() {
    let ir = compiled_ir("func main() {\n    var n: i64 = 5\n    switch n {\n        case 3..7:\n            println(5)\n        default:\n            println(0)\n    }\n}");
    assert!(ir.contains("= icmp sge i64"));
    assert!(ir.contains("= icmp slt i64"));
    assert!(ir.contains("= and i1"));
}

#[test]
fn switch_guard_and() {
    let ir = compiled_ir("func main() {\n    var n: i64 = 8\n    var flag: bool = true\n    switch n {\n        case 8 when flag:\n            println(8)\n        default:\n            println(0)\n    }\n}");
    assert!(ir.contains("= icmp eq i64"));
    assert!(ir.contains("= and i1"));
}

#[test]
fn table_variable_array_layout() {
    let ir = compiled_ir("func main() {\n    var arr: table = [10, 20, 30]\n}");
    assert!(ir.contains("= alloca [3 x i64]"));
    assert!(ir.contains("getelementptr [3 x i64], ptr %"));
    assert!(ir.contains("store i64 10, ptr %"));
    assert!(ir.contains("store i64 20, ptr %"));
    assert!(ir.contains("store i64 30, ptr %"));
}

#[test]
fn table_index_gep_and_load() {
    let ir = compiled_ir("func main() {\n    var arr: table = [10, 20, 30]\n    var x: i64 = arr[1]\n    println(x)\n}");
    assert!(ir.contains("getelementptr [3 x i64], ptr %"));
    assert!(ir.contains("= load i64, ptr %"));
}

#[test]
fn println_printf_and_formats() {
    let ir = compiled_ir("func main() {\n    println(\"hi\")\n    println(42)\n}");
    assert!(ir.contains("call i32 (ptr, ...) @printf(ptr @.str."));
    assert!(ir.contains("c\"hi\\00\""));
    assert!(ir.contains("c\"%lld\\0A\\00\""));
}

#[test]
fn string_concat_malloc_and_memcpy() {
    let ir = compiled_ir("func main() {\n    var s: string = \"Hello\" + \"World\"\n}");
    assert!(ir.contains("= call i64 @strlen(ptr @.str."));
    assert!(ir.contains("= call ptr @malloc(i64 %"));
    assert!(ir.contains("call void @llvm.memcpy.p0.p0.i64(ptr %"));
    assert!(ir.contains("store i8 0, ptr %"));
}

#[test]
fn string_comparison_and_len() {
    let ir = compiled_ir("func main() {\n    var e: bool = \"abc\" == \"abd\"\n    var n: i64 = len(\"tie\")\n}");
    assert!(ir.contains("= call i32 @strcmp(ptr @.str."));
    assert!(ir.contains("= icmp eq i32 %"));
    assert!(ir.contains("= call i64 @strlen(ptr @.str."));
}

#[test]
fn str_len_calls_tie_str_len() {
    let out = compiled("func main() {\n    var n: i64 = str_len(\"你好\")\n}");
    assert!(out.ir.contains("call i64 @tie_str_len(ptr @.str."), "IR 应调用 tie_str_len: {}", out.ir);
    assert!(out.ir.contains("declare i64 @tie_str_len(ptr)"), "应声明 tie_str_len extern");
    assert!(out.used_externs.contains(&"tie_str_len".to_string()), "应记录 used_externs");
}

#[test]
fn struct_method_call() {
    let ir = compiled_ir("struct Point {\n    var x: i64\n    var y: i64\n}\nnamespace Point {\n    pub func area(p: Point) -> i64 {\n        return p.x * p.y\n    }\n}\nfunc main() {\n    var p = Point(3, 4)\n    println(p.area())\n}");
    assert!(ir.contains("define i64 @Point$area(ptr %p) {"));
    assert!(ir.contains("getelementptr {i64, i64}, ptr %p, i32 0, i32 0"));
    assert!(ir.contains("getelementptr {i64, i64}, ptr %p, i32 0, i32 1"));
    assert!(ir.contains("insertvalue {i64, i64}"));
    assert!(ir.contains("= call i64 @Point$area(ptr %"));
}

#[test]
fn struct_static_call() {
    let ir = compiled_ir("struct Point {\n    var x: i64\n    var y: i64\n}\nnamespace Point {\n    pub func create(x: i64, y: i64) -> i64 {\n        return x + y\n    }\n}\nfunc main() {\n    println(Point.create(1, 2))\n}");
    assert!(ir.contains("define i64 @Point$create(i64 %x, i64 %y) {"));
    assert!(!ir.contains("Point$create({"));
    assert!(ir.contains("call i64 @Point$create(i64 1, i64 2)"));
}

#[test]
fn struct_construction_and_field_assignment() {
    let ir = compiled_ir("struct Point {\n    var x: i64\n    var y: i64\n}\nfunc main() {\n    var p = Point(3, 4)\n    p.x = 100\n    println(p.x)\n}");
    assert!(ir.contains("insertvalue {i64, i64} undef, i64 3, 0"));
    assert!(ir.contains("insertvalue {i64, i64} %"));
    assert!(ir.contains("getelementptr {i64, i64}, ptr %"));
    assert!(ir.contains("store i64 100, ptr %"));
}

#[test]
fn main_function_i32_and_ret_0() {
    let ir = compiled_ir("func main() -> i32 {\n    return 0\n}");
    assert!(ir.contains("define i32 @main() {"));
    assert!(ir.contains("entry:"));
    assert!(ir.contains("ret i32 0"));
}

#[test]
fn tuple_insertvalue_and_extractvalue() {
    let ir = compiled_ir("func main() {\n    var t = (10, 20)\n    println(t.Item1)\n}");
    assert!(ir.contains("insertvalue {i64, i64} undef, i64 10, 0"));
    assert!(ir.contains("insertvalue {i64, i64} %"));
    assert!(ir.contains("= extractvalue {i64, i64} %"));
}

#[test]
fn range_cannot_be_evaluated_alone() {
    let result = pipeline("func main() {\n    var r = 1..3\n}");
    assert!(result.is_err());
}

#[test]
fn table_literal_needs_a_table_variable() {
    let result = pipeline("func main() {\n    var x: i64 = [1, 2]\n}");
    assert!(result.is_err());
}

#[test]
fn bit_operations_and_shifts() {
    let ir = compiled_ir("func main() {\n    var x: i64 = 5\n    println(x & 3)\n    println(x | 8)\n    println(x ^ 1)\n    println(8 >> 2)\n    println(1 << 3)\n}");
    assert!(ir.contains("= and i64 %"));
    assert!(ir.contains("= or i64 %"));
    assert!(ir.contains("= xor i64 %"));
    assert!(ir.contains("= ashr i64 8, 2"));
    assert!(ir.contains("= shl i64 1, 3"));
}

#[test]
fn compound_assignment_load_and_store() {
    let ir = compiled_ir("func main() {\n    var x: i64 = 1\n    x += 2\n    x *= 4\n    x -= 1\n    x /= 2\n    x %= 3\n}");
    assert!(ir.contains("= add i64 %"));
    assert!(ir.contains("= mul i64 %"));
    assert!(ir.contains("= sub i64 %"));
    assert!(ir.contains("= sdiv i64 %"));
    assert!(ir.contains("= srem i64 %"));
    assert!(ir.contains("store i64 %"));
}

#[test]
fn string_compound_concat() {
    let ir = compiled_ir("func main() {\n    var s: string = \"a\"\n    s += \"b\"\n}");
    assert!(ir.contains("= call i64 @strlen(ptr %"));
    assert!(ir.contains("= call ptr @malloc(i64 %"));
    assert!(ir.contains("store ptr %"));
}

#[test]
fn ternary_phi() {
    let ir = compiled_ir("func main() {\n    var x: i64 = 5\n    println(x > 0 ? 100 : -1)\n    println(x < 0 ? 1 : 2)\n}");
    assert!(ir.contains("tern.then."));
    assert!(ir.contains("tern.else."));
    assert!(ir.contains("tern.merge."));
    assert!(ir.contains("= phi i64"));
}

#[test]
fn inc_dec_load_and_store() {
    let ir = compiled_ir("func main() {\n    var x: i64 = 1\n    x++\n    ++x\n    x--\n    println(x--)\n    println(++x)\n}");
    assert!(ir.contains("= add i64 %"));
    assert!(ir.contains("= sub i64 %"));
    assert!(ir.contains("store i64 %"));
}

#[test]
fn renumber_ir_numbers_everything() {
    let src = "define void @main() {\nentry:\n  %54 = alloca i1\n  %1 = call ptr @tie_table_new(i64 8)\n  store ptr %1, ptr %54\n  br label %loop.cond.2\nloop.cond.2:\n  %19 = load i64, ptr %54\n  %2 = icmp slt i64 %19, 100\n  br i1 %2, label %loop.body.3, label %loop.exit.4\nloop.body.3:\n  %55 = load i64, ptr %54\n  br label %loop.cond.2\nloop.exit.4:\n  ret void\n}";
    let re = renumber_ir(&src.chars().collect());
    let mut prev = 0u32;
    for line in re.lines() {
        let t = line.trim();
        if let Some(rest) = t.strip_prefix('%') {
            let num: String = rest.chars().take_while(|c| c.is_ascii_digit()).collect();
            if !num.is_empty() && rest[num.len()..].starts_with(" = ") {
                let n: u32 = num.parse().unwrap();
                assert!(n > prev, "定义编号未递增: {n} <= {prev}\n{re}");
                prev = n;
            }
        }
    }
    assert!(re.contains("= alloca i1"), "应保留 alloca 定义");
    assert!(re.contains("@tie_table_new"), "函数调用保留");
}

#[test]
fn renumber_ir_numbers_bare_instructions() {
    let src = "define void @main() {\nentry:\n  %1 = alloca i64\n  store i64 0, ptr %1\n  br label %l.2\nl.2:\n  %2 = load i64, ptr %1\n  call i32 (ptr, ...) @printf(ptr null, i64 %2)\n  call void @exit(i32 1)\n  %3 = add i64 %2, 1\n  store i64 %3, ptr %1\n  br label %l.2\n}";
    let re = renumber_ir(&src.chars().collect());
    let mut prev = 0u32;
    let mut cmd_count = 0;
    for line in re.lines() {
        let t = line.trim();
        if t.starts_with('%') {
            let num: String = t[1..].chars().take_while(|c| c.is_ascii_digit()).collect();
            if !num.is_empty() && t[1 + num.len()..].starts_with(" = ") {
                let n: u32 = num.parse().unwrap();
                assert!(n > prev, "编号未递增: {n} <= {prev}\n{re}");
                prev = n;
                cmd_count += 1;
            }
        }
    }
    assert!(cmd_count >= 4, "应有 ≥4 条编号指令，实际 {cmd_count}\n{re}");
    assert!(re.contains("call i32 (ptr, ...) @printf"), "变参 call 保留");
    assert!(re.contains("store i64 0, ptr %1"), "store 应保持无编号");
    assert!(re.contains("br label %l.2"), "br 应保持无编号");
}

// ---------- the code of a module, in full ----------
#[test]
fn module_text_in_full() {
    let ir = compiled_ir("func main() {\n    println(42)\n}");
    let (_, code) = ir.split_once("declare double @round(double)\n\n").unwrap();
    assert_eq!(
        code,
        "define i32 @main() {\nentry:\n\
         %1 = call i32 (ptr, ...) @printf(ptr @.str.1, i64 42)\n\
         ret i32 0\n}\n\n\n\
         @.str.1 = private unnamed_addr constant [6 x i8] c\"%lld\\0A\\00\"\n"
    );
}

#[test]
fn function_text_in_full() {
    let ir = compiled_ir(
        "func twice(n: i64) -> i64 {\n    var m = n * 2\n    return m\n}\nfunc main() {}",
    );
    assert!(ir.contains(
        "define i64 @twice(i64 %n) {\nentry:\n\
         %1 = alloca i64\n\
         store i64 %n, ptr %1\n\
         %2 = alloca i64\n\
         %3 = load i64, ptr %1\n\
         %4 = mul i64 %3, 2\n\
         store i64 %4, ptr %2\n\
         %5 = load i64, ptr %2\n\
         ret i64 %5\n}\n"
    ));
}

#[test]
fn library_functions_are_listed_once_and_declared() {
    let out = compiled(
        "func main() {\n    var t = table_new_i64()\n    table_push(t, 1)\n    table_push(t, 2)\n    \
         println(t[0] + t[1])\n    println(len(t))\n}",
    );
    for f in &out.used_externs {
        assert_eq!(out.used_externs.iter().filter(|g| *g == f).count(), 1);
        assert!(out.ir.contains(&format!("@{}(", f)));
        assert!(out.ir.lines().any(|l| l.starts_with("declare ") && l.contains(f.as_str())));
    }
    assert_eq!(
        out.used_externs,
        ["tie_table_new", "tie_table_push_i64", "tie_table_at_i64", "tie_table_len"]
    );
}

#[test]
fn the_first_error_is_reported() {
    let err = generate("func main() {\n    var r = 1..3\n    var q = nope\n}").unwrap_err();
    assert_eq!(err, "IR 生成错误: 范围表达式只能在 for 中使用（不能单独求值）");
    let err = generate("func main() {\n    var q = nope\n    var r = 1..3\n}").unwrap_err();
    assert_eq!(err, "IR 生成错误: 内部错误：变量 'nope' 未入作用域（函数 main）");
}

#[test]
fn block_variables_are_gone_after_the_block() {
    let err = generate("func main() {\n    if true {\n        var x = 1\n    }\n    println(x)\n}")
        .unwrap_err();
    assert!(err.contains("变量 'x' 未入作用域"), "{err}");
    let err = generate("func main() {\n    for i in 0..3 {\n    }\n    println(i)\n}").unwrap_err();
    assert!(err.contains("变量 'i' 未入作用域"), "{err}");
    let ir = compiled_ir(
        "func main() {\n    var x = 1\n    if true {\n        var x = 2\n        println(x)\n    }\n    \
         println(x)\n}",
    );
    assert!(ir.contains("store i64 1, ptr %1") && ir.contains("store i64 2, ptr %2"), "{ir}");
}

#[test]
fn slots_stand_in_the_entry_block() {
    let ir = compiled_ir("func main() {\n    while true {\n        var x = 1\n    }\n}");
    let entry = ir.split("entry:\n").nth(1).unwrap();
    assert!(entry.starts_with("%1 = alloca i64\nbr label %loop.cond."), "{ir}");
}

#[test]
fn missing_arguments_and_recursion_of_structs_are_errors() {
    let err = generate("func f(a: i64) -> i64 {\n    return a\n}\nfunc main() {\n    f()\n}");
    assert!(err.unwrap_err().contains("缺少第 1 个实参且无默认值"));
    let err = generate("func main() {\n    println(sqrt())\n}").unwrap_err();
    assert!(err.contains("内置函数缺少实参"), "{err}");
    let err = generate("struct A {\n    var a: A\n}\nfunc main() {\n    var x = A()\n}");
    assert!(err.unwrap_err().contains("struct 'A' 包含自身"));
}

#[test]
fn defaults_fill_in_for_arguments() {
    let ir = compiled_ir(
        "func f(a: i64, b: i64 = 5) -> i64 {\n    return a + b\n}\nfunc main() {\n    \
         println(f(1))\n    println(f(1, 2))\n}",
    );
    assert!(ir.contains("call i64 @f(i64 1, i64 5)"));
    assert!(ir.contains("call i64 @f(i64 1, i64 2)"));
}

#[test]
fn namespace_functions_get_symbols() {
    let ir = compiled_ir(
        "namespace a.b {\n    func f() -> i64 {\n        return 1\n    }\n    func g() -> i64 {\n        \
         return f()\n    }\n}\nfunc main() {}",
    );
    assert!(ir.contains("define i64 @a$b$f() {"));
    assert!(ir.contains("call i64 @a$b$f()"));
}

#[test]
fn strings_and_unsigned_numbers_print_by_their_type() {
    let ir = compiled_ir(
        "func main() {\n    var u: u8 = 200\n    var c: char = 'x'\n    println(u)\n    println(c)\n    \
         println(1.5)\n    println(true)\n}",
    );
    for fmt in ["%u", "%c", "%f", "%lld"] {
        assert!(ir.contains(&format!("c\"{fmt}\\0A\\00\"")), "{fmt} in {ir}");
    }
}

// ---------- what the interpreter says ----------
fn failure(code: &str) -> String {
    match ev(code) {
        Ok(v) => panic!("{code} gives {v}"),
        Err(m) => m,
    }
}

#[test]
fn eval_reports_each_error() {
    let cases = [
        ("if true { var x = 1; var x = 2; }", "变量 'x' 重复声明"),
        ("x = 1", "变量 'x' 未声明"),
        ("x += 1", "变量 'x' 未声明"),
        ("++x", "变量 'x' 未声明"),
        ("var s = \"a\"; s++", "自增/自减只能作用于数字"),
        ("[1][0]++", "自增/自减只支持变量"),
        ("-\"a\"", "一元负号只能作用于数字"),
        ("!5", "逻辑非只能作用于布尔"),
        ("1 ? 2 : 3", "条件必须是布尔，实际是 整数"),
        ("if 1 { 2; }", "条件必须是布尔，实际是 整数"),
        ("[1][true]", "下标必须是整数"),
        ("var s = \"a\"; s[0]", "下标访问仅支持表"),
        ("[1][3]", "运行时错误: table_at 下标越界：索引 3 超出长度 1"),
        ("true..3", "范围起点必须是整数"),
        ("1..true", "范围终点必须是整数"),
        ("for i in 5 { i; }", "for 的迭代对象必须是范围（0..10）"),
        ("table_push(1)", "table_push 需要表与元素参数"),
        ("table_push([1], 2)", "table_push 的第 1 个参数必须是表变量"),
        ("var n = 1; table_push(n, 2)", "table_push 的第 1 个参数必须是表"),
        ("var n = 1; n[0] = 2", "下标赋值的对象必须是表，实际是 整数"),
        ("(1, 2)", "REPL v1 暂不支持元组"),
        ("var p = 1; p.x", "REPL v1 暂不支持字段访问（类/元组）"),
        ("var p = 1; p.x = 2", "REPL v1 暂不支持字段赋值（类）"),
        ("var p = 1; p.go()", "REPL v1 暂不支持 struct 方法调用"),
        ("a::b", "命名空间路径 'a::b' 不能作为值使用（只能用于调用）"),
        ("string", "类型字面量只能用作 switch 的 case 类型匹配"),
        ("struct P {\n var x: i64\n}\n", "REPL v1 暂不支持 struct 定义"),
        ("import x\n", "REPL v1 暂不支持 import"),
        ("using x\n", "REPL v1 暂不支持 using"),
        ("switch 1 { case true..2: 0; }", "case 区间起点必须是整数或字符"),
        ("switch 1 { case 0..true: 0; }", "case 区间终点必须是整数或字符"),
        ("nope()", "未定义的函数 'nope'"),
        ("\"abc", "字符串没有结束"),
        ("1 +", "期望表达式，得到 Op(\"}\")"),
        ("exit(\"a\")", "exit 需要一个整数参数"),
        ("sqrt(\"a\")", "sqrt 需要一个数字参数"),
        ("pow(1)", "pow 需要两个数字参数"),
        ("eval(1)", "eval 需要一个字符串参数"),
        ("file_read()", "file_read 需要一个字符串参数"),
        ("cwd(1)", "cwd 不需要参数"),
        ("path_join(\"a\")", "path_join 需要两个字符串参数"),
    ];
    let wrong: Vec<String> = cases
        .iter()
        .filter(|(code, want)| ev(code) != Err(want.to_string()))
        .map(|(code, _)| format!("{code}: {:?}", ev(code)))
        .collect();
    assert_eq!(wrong, Vec::<String>::new());
}

#[test]
fn eval_refuses_a_pattern_with_its_text() {
    assert_eq!(
        failure("regex_match(\"abc\", \"[\")"),
        "运行时错误: regex_match 模式 '[' 非法"
    );
    assert_eq!(
        failure("regex_replace(\"abc\", \"(\\\"\", \"\")"),
        "运行时错误: regex_replace 模式 '(\"' 非法"
    );
    assert_eq!(
        failure("regex_find_all(\"abc\", \"(\n\")"),
        "运行时错误: regex_find_all 模式 '(\n' 非法"
    );
    assert_eq!(
        failure("regex_group(\"abc\", \"(é\", 0)"),
        "运行时错误: regex_group 模式 '(é' 非法"
    );
}

#[test]
fn functions_do_not_see_their_callers() {
    let mut s = Repl::new();
    s.eval("func inner() -> i64 {\n    return hidden\n}\n").unwrap();
    s.eval("func outer() -> i64 {\n    var hidden = 5\n    return inner()\n}\n").unwrap();
    assert_eq!(s.eval("outer()").unwrap_err(), "变量 'hidden' 未声明");
    s.eval("var hidden = 7").unwrap();
    assert_eq!(s.eval("inner()").unwrap(), "7");
}

#[test]
fn blocks_have_scopes_of_their_own() {
    assert_eq!(failure("if true { var z = 1; } z"), "变量 'z' 未声明");
    assert_eq!(failure("for i in 0..2 { i; } i"), "变量 'i' 未声明");
    assert_eq!(ev("var z = 1; if true { z = 2; } z").unwrap(), "2");
}

#[test]
fn definitions_outlive_an_error() {
    let mut s = Repl::new();
    s.eval("func f() -> i64 {\n    return 1\n}\n").unwrap();
    s.eval("1 / 0").unwrap_err();
    assert_eq!(s.eval("f()").unwrap(), "1");
    assert_eq!(s.eval("namespace a.b {\n func f() -> i64 {\n return 2\n }\n}\n").unwrap(), "已定义 1 个函数");
    assert_eq!(s.eval_call("a::b::f", "x").unwrap_err(), "eval_call: 函数 'a::b::f' 必须恰好接收 1 个字符串参数（实际形参 0 个）");
    assert_eq!(s.eval("a::b.f()").unwrap(), "2");
}

#[test]
fn eval_nests() {
    assert_eq!(ev("eval(\"1 + 2\") + \"!\"").unwrap(), "3!");
    assert_eq!(ev("eval(\"eval(\\\"2 * 3\\\")\")").unwrap(), "6");
    let mut s = Repl::new();
    assert_eq!(s.eval("eval(\"var inner = 4\")").unwrap(), "已定义 0 个函数");
    assert_eq!(s.eval("inner").unwrap(), "4");
}

#[test]
fn output_goes_to_the_host() {
    let mut s = Repl::new();
    assert_eq!(s.eval("print(1, true); println(\"x\", [1, 2], 'c', 0..2)").unwrap(), "");
    assert_eq!(s.host.out, "11x[1, 2]c0..2\n");
    assert_eq!(s.eval("read_line()").unwrap(), "one line");
}

#[test]
fn values_show_as_they_are() {
    assert_eq!(ev("[1, [true, \"a\"], 2.5]").unwrap(), "[1, [1, a], 2.5]");
    assert_eq!(ev("1..4").unwrap(), "1..4");
    assert_eq!(ev("'x'").unwrap(), "x");
    assert_eq!(ev("true").unwrap(), "true");
    assert_eq!(ev("table_push([1], 1)").is_err(), true);
    assert_eq!(ev("var t = table_new_i64(); table_push(t, 1)").unwrap(), "");
}

#[test]
fn bytes_and_bits_in_a_program() {
    let mut s = Repl::new();
    assert_eq!(s.eval("byte_write(\"/work/b\", [72, 105, 300, -4])").unwrap(), "true");
    assert_eq!(s.host.files[0].1.as_bytes()[0], 72);
    s.host.write("/work/c", "AB");
    assert_eq!(s.eval("byte_read(\"/work/c\")").unwrap(), "[65, 66]");
    assert_eq!(s.eval("byte_concat([1], [2, 3])").unwrap(), "[1, 2, 3]");
    assert_eq!(s.eval("bit_read([5], 2)").unwrap(), "1");
    assert_eq!(s.eval("bit_read([5], 99)").unwrap(), "0");
    assert_eq!(
        s.eval("byte_read(\"/work/none\")").unwrap_err(),
        "运行时错误: byte_read 无法读取文件 '/work/none'"
    );
}

#[test]
fn a_crash_is_told_across_the_border() {
    let mut m = Session::new().eval(MsgState::default(), "while true { break; }");
    loop {
        while m.run(100) {}
        let reply = match &m.ctl {
            Ctl::Parse(code) => Reply::Parsed(parse(code)),
            _ => break,
        };
        m.resume(reply);
    }
    let Ctl::Done(end) = m.ctl else { panic!("not done") };
    assert!(matches!(end, Finish::Crash));
    assert_eq!(c_guard(end), "内部错误: 解释器崩溃");
    assert_eq!(c_guard(Finish::Result("a\0b".to_string())), "");
    assert_eq!(c_guard(Finish::Failure("oops".to_string())), "oops");
}

#[test]
fn an_answer_of_the_wrong_kind_is_a_crash() {
    let mut m = Session::new().eval(MsgState::default(), "1");
    assert!(!m.run(1_000));
    assert!(matches!(m.ctl, Ctl::Parse(_)));
    m.step();
    assert!(matches!(m.ctl, Ctl::Parse(_)));
    m.resume(Reply::Done);
    assert!(matches!(m.ctl, Ctl::Done(Finish::Crash)));
    m.resume(Reply::Flag(true));
    assert!(matches!(m.ctl, Ctl::Done(Finish::Crash)));
}

#[test]
fn running_in_pieces_changes_nothing() {
    for piece in [1, 2, 7, 1_000] {
        let mut m = Session::new().eval(MsgState::default(), "var s = 0; for i in 1..4 { s = s + i; } s");
        loop {
            while m.run(piece) {}
            let reply = match &m.ctl {
                Ctl::Parse(code) => Reply::Parsed(parse(code)),
                _ => break,
            };
            m.resume(reply);
        }
        assert!(matches!(&m.ctl, Ctl::Done(Finish::Result(s)) if s == "6"));
    }
}

#[test]
fn notes_are_kept_for_table_returns() {
    let toks = tokens("func f(x: string) -> table {\n    return regex_find_all(x, \"a\")\n}\nfunc main() {\n    println(table_at(f(\"aa\"), 1))\n}").unwrap();
    let mut parser = Parser::new(toks);
    let program = parser.program().unwrap();
    let err = gen_ir(&program, &parser.sem).unwrap_err();
    assert_eq!(err.message, "内部错误：返回表的函数 'f' 缺少元素类型元数据（函数 main）");
    parser.sem.table_rets.push(TableRet {
        func: "f".to_string(),
        elem_ty: Some(TypeSpec::Named(TyKw::Str)),
    });
    let out = gen_ir(&program, &parser.sem).unwrap();
    assert!(out.ir.contains("call ptr @tie_table_at_string(ptr %"));
}

#[test]
fn defaults_may_need_one_another() {
    let ir = compiled_ir(
        "func f(a: i64, b: i64 = f(0, 0, 0), c: i64 = f(0, 0, 0, 0), d: i64 = 7) -> i64 {\n    \
         return a + b + c + d\n}\nfunc main() {\n    println(f(1))\n}",
    );
    assert_eq!(ir.matches("call i64 @f(").count(), 3);
    let err = generate(
        "func g(a: i64, b: i64 = g(0)) -> i64 {\n    return a\n}\nfunc main() {\n    println(g(1))\n}",
    )
    .unwrap_err();
    assert_eq!(err, "IR 生成错误: 内部错误：默认值的展开没有终点（函数 main）");
}

/// A string as it stands in the text of a constant.
fn constant(s: &str) -> String {
    s.bytes()
        .map(|b| if b.is_ascii() { (b as char).to_string() } else { format!("\\{:02X}", b) })
        .collect()
}

#[test]
fn both_ways_of_running_report_failures_alike() {
    for (call, said, format) in [
        (
            "parse_int(\"x\")",
            "运行时错误: parse_int 参数 'x' 不是合法的整数",
            "运行时错误: parse_int 参数 '%s' 不是合法的整数",
        ),
        (
            "file_read(\"no/such/file\")",
            "运行时错误: file_read 无法读取文件 'no/such/file'",
            "运行时错误: file_read 无法读取文件 '%s'",
        ),
        (
            "rand_range(5, 5)",
            "运行时错误: rand_range 参数范围无效（max 必须大于 min）",
            "运行时错误: rand_range 参数范围无效（max 必须大于 min）",
        ),
        ("log(0.0)", "运行时错误: log 参数必须大于 0", "运行时错误: log 参数必须大于 0"),
        (
            "regex_match(\"abc\", \"[\")",
            "运行时错误: regex_match 模式 '[' 非法",
            "运行时错误: regex_match 模式 '%s' 非法",
        ),
        (
            "regex_group(\"abc\", \"(\", 1)",
            "运行时错误: regex_group 模式 '(' 非法",
            "运行时错误: regex_group 模式 '%s' 非法",
        ),
    ] {
        assert_eq!(failure(call), said);
        let ir = compiled_ir(&format!("func main() {{\n    println({})\n}}", call));
        assert!(ir.contains(&constant(format)), "{}", ir);
    }
    assert_eq!(
        failure("table_at(table_new_i64(), 3)"),
        "运行时错误: table_at 下标越界：索引 3 超出长度 0"
    );
    let ir = compiled_ir("func main() {\n    var t = table_new_i64()\n    println(table_at(t, 3))\n}");
    assert!(ir.contains(&constant("运行时错误: table_at 下标越界：索引 %lld 超出长度 %lld")), "{}", ir);
}

#[test]
fn names_are_given_once() {
    let ir = compiled_ir(
        "func f(n: i64) -> string {\n    if n > 1 {\n        return \"a\"\n    } else if n > 0 {\n        \
         return \"b\"\n    }\n    return \"a\"\n}\nfunc main() {\n    var i = 0\n    while i < 3 {\n        \
         println(f(i))\n        if i == 1 { println(i) }\n        i++\n    }\n    println(i)\n}",
    );
    let unique = |mut names: Vec<String>| {
        let all = names.len();
        names.sort();
        names.dedup();
        names.len() == all
    };
    let constants: Vec<String> = ir
        .lines()
        .filter(|l| l.starts_with("@.str."))
        .map(|l| l.split(' ').next().unwrap().to_string())
        .collect();
    assert!(constants.len() == 4 && unique(constants), "{}", ir);
    assert_eq!(ir.matches("c\"%lld\\0A\\00\"").count(), 1);
    for code in ir.split("define ").skip(1) {
        let lines: Vec<&str> = code.lines().map(|l| l.trim()).collect();
        let labels: Vec<String> =
            lines.iter().filter(|l| l.ends_with(':')).map(|l| l.to_string()).collect();
        let registers: Vec<String> = lines
            .iter()
            .filter(|l| l.starts_with('%') && l.contains(" = "))
            .map(|l| l.split(' ').next().unwrap().to_string())
            .collect();
        assert!(unique(labels) && unique(registers), "{}", code);
    }
}

#[test]
fn string_constants_are_shared() {
    let ir = compiled_ir(
        "func main() {\n    println(\"same\")\n    println(\"other\")\n    println(\"same\")\n}",
    );
    assert_eq!(ir.matches("c\"same\\00\"").count(), 1);
    assert_eq!(ir.matches("c\"other\\00\"").count(), 1);
    let line = ir.lines().find(|l| l.contains("c\"same\\00\"")).unwrap();
    let name = line.split(' ').next().unwrap();
    assert_eq!(ir.matches(&format!("ptr {})", name)).count(), 2, "{}", ir);
}

#[test]
fn misc_takes_what_num_and_text_do_not() {
    let case = |subject: &str, ty: &str| {
        ev(&format!("var x = {subject}; switch x {{ case {ty}: 1; default: 0; }}")).unwrap()
    };
    for subject in ["true", "[1]", "zero"] {
        assert_eq!(case(subject, "misc"), "1", "{}", subject);
        assert_eq!(case(subject, "num"), "0");
        assert_eq!(case(subject, "text"), "0");
    }
    for subject in ["1", "1.5", "\"s\"", "'c'"] {
        assert_eq!(case(subject, "misc"), "0", "{}", subject);
    }
}

#[test]
fn bits_are_written_into_the_variable() {
    assert_eq!(
        ev("var t = table_new_i64(); table_push(t, 0); bit_write(t, 3, 1); t[0]").unwrap(),
        "8"
    );
    assert_eq!(
        ev("var t = [255, 1]; bit_write(t, 0, 0); bit_write(t, 9, 1); t[0] * 1000 + t[1]").unwrap(),
        "254003"
    );
    assert_eq!(ev("var t = [0]; bit_write(t, 8, 1)").unwrap(), "false");
    assert_eq!(ev("var t = [0]; bit_write(t, 8, 1); t[0]").unwrap(), "0");
    assert_eq!(ev("bit_write([0], 1, 1)").unwrap(), "true");
    assert_eq!(failure("var t = 1; bit_write(t, 1, 1)"), "bit_write 第 1 个参数必须是字节表");
    assert_eq!(failure("bit_write(nope, 1, 1)"), "变量 'nope' 未声明");
}

#[test]
fn built_in_functions_come_before_those_of_the_namespace() {
    let mut s = Repl::new();
    s.eval(
        "namespace m {\nfunc len(x: string) -> i64 {\nreturn 99\n}\n\
         func twice(x: i64) -> i64 {\nreturn x * 2\n}\n\
         func go() -> i64 {\nreturn twice(len(\"ab\"))\n}\n}\n",
    )
    .unwrap();
    assert_eq!(s.eval("m.go()").unwrap(), "4");
    assert_eq!(s.eval("m.len(\"ab\")").unwrap(), "99");
}

#[test]
fn only_integers_get_a_jump_table() {
    let of = |ty: &str, x: &str| {
        compiled_ir(&format!(
            "func main() {{\n    var x: {ty} = {x}\n    switch x {{\n        case 1: println(1);\n        \
             default: println(0);\n    }}\n}}"
        ))
    };
    assert!(of("i64", "1").contains("switch i64 "));
    let ir = of("f64", "1.5");
    assert!(!ir.contains("switch i64 "), "{}", ir);
    assert!(ir.contains("fcmp oeq double"), "{}", ir);
}

#[test]
fn paths_in_a_program() {
    assert_eq!(ev("path_normalize(\"/../a\")").unwrap(), "/a");
    assert_eq!(ev("path_join(\"a\", \"b\")").unwrap(), "a/b");
    assert_eq!(ev("path_basename(\"a/b.c\")").unwrap(), "b.c");
    assert_eq!(ev("path_dirname(\"a/b.c\")").unwrap(), "a");
    assert_eq!(ev("path_join(\"a\")"), Err("path_join 需要两个字符串参数".to_string()));
    assert_eq!(ev("path_dirname(1)"), Err("path_dirname 需要一个字符串参数".to_string()));
    let mut repl = Repl::new();
    repl.session.windows = true;
    assert_eq!(repl.eval("path_join(\"c:\", \"b\")").unwrap(), "c:b");
    assert_eq!(repl.eval("path_join(\"a\", \"b\")").unwrap(), "a\\b");
}

#[test]
fn dropped_texts_of_the_library_are_freed() {
    for call in [
        "cwd()",
        "get_env(\"PATH\")",
        "msg_t(\"k\")",
        "msg_t_lang(\"k\", \"zh\")",
        "msg_get_lang()",
        "path_join(\"a\", \"b\")",
        "path_normalize(\"a\")",
        "exec_output(\"ls\")",
        "http_get(\"http://h/\")",
        "to_string(1)",
        "read_line()",
    ] {
        let out = compiled(&format!("func main() {{\n    {call}\n}}"));
        assert_eq!(out.ir.matches("call void @tie_free_result(ptr %").count(), 1, "{}", call);
        assert_eq!(out.ir.matches("declare void @tie_free_result(ptr)").count(), 1, "{}", call);
    }
    for call in ["time_now()", "exec_code(\"ls\")", "list_dir(\"a\")"] {
        let out = compiled(&format!("func main() {{\n    {call}\n}}"));
        assert!(!out.ir.contains("tie_free_result"), "{}", call);
    }
}

#[test]
fn nothing_stands_behind_the_end_of_the_program() {
    let ir = compiled_ir("func main() {\n    exit(3)\n}");
    assert!(ir.contains("call void @exit(i32 %"), "{}", ir);
    assert!(ir.contains("unreachable\n}"), "{}", ir);
    assert!(!ir.contains("ret i32 0"), "{}", ir);
    let ir = compiled_ir("func main() {\n    println(3)\n}");
    assert!(ir.contains("ret i32 0\n}"), "{}", ir);
}

#[test]
fn the_text_calls_only_listed_functions() {
    let out = compiled(
        "func main() {\n    var t = table_new_i64()\n    for i in 0..3 {\n        \
         table_push(t, i)\n    }\n    println(table_at(t, 1))\n    \
         println(to_string(parse_int(\"7\")))\n    println(len(t) + rand_range(0, 9))\n}",
    );
    let mut calls = 0;
    for (i, _) in out.ir.match_indices("@tie_") {
        let rest = &out.ir[i + 1..];
        let name = &rest[..rest.find('(').unwrap()];
        assert!(out.used_externs.iter().any(|f| f == name), "{name}");
        calls += 1;
    }
    assert!(calls >= 2 * out.used_externs.len(), "{}", out.ir);
    assert!(out.used_externs.len() >= 5, "{:?}", out.used_externs);
}

#[test]
fn no_slot_is_reserved_behind_the_entry_block() {
    let ir = compiled_ir(
        "func f(n: i64) -> i64 {\n    var s = 0\n    for i in 0..n {\n        var t = [i, i, i]\n        \
         while s < 3 {\n            var u: string = to_string(s)\n            s += len(u)\n        }\n    }\n    \
         return s\n}\nfunc main() {\n    println(f(2))\n}",
    );
    let mut slots = 0;
    for function in ir.split("\ndefine ").skip(1) {
        let function = &function[..function.find("\n}\n").unwrap()];
        let mut labels = 0;
        for line in function.lines() {
            if line.ends_with(':') {
                labels += 1;
            }
            if line.contains(" = alloca ") {
                assert_eq!(labels, 1, "{function}");
                slots += 1;
            }
        }
    }
    assert!(slots >= 4, "{ir}");
}

#[test]
fn defaults_that_read_leave_the_caller_alone() {
    let mut s = Repl::new();
    s.eval("func three() -> i64 {\n    var n = 1\n    n += 2\n    return n\n}").unwrap();
    s.eval(
        "func sum(a: i64, b: i64 = a * 2, c: i64 = three()) -> i64 {\n    a = a + b + c\n    \
         return a\n}",
    )
    .unwrap();
    s.eval(
        "func caller() -> i64 {\n    var n = 10\n    var a = 4\n    var r = sum(1)\n    \
         return n * 1000 + a * 100 + r\n}",
    )
    .unwrap();
    assert_eq!(s.eval("caller()").unwrap(), "10406");
    s.eval("func more(x: i64 = n++) -> i64 {\n    return x\n}").unwrap();
    s.eval("func stepped() -> i64 {\n    var n = 5\n    more()\n    return n\n}").unwrap();
    assert_eq!(s.eval("stepped()").unwrap(), "6");
}
