//! What the validator needs from a CEL runtime.
//!
//! Custom rules are CEL expressions. An [`Engine`] compiles them into
//! programs, parses messages into frames, and evaluates programs with `this`
//! bound to a scalar, a parsed message, or a field of one. [`NoCel`] is the
//! engine of a validator without custom rules: it compiles none.

use crate::double::Double;
use vstd::prelude::*;

verus! {

/// A scalar, as an expression's `this` or a map key.
#[derive(Clone, Copy, Debug)]
pub enum Scalar<'a> {
    Bool(bool),
    Int(i64),
    Uint(u64),
    Double(Double),
    String(&'a str),
    Bytes(&'a [u8]),
}

/// What a [`Scalar`] holds.
pub enum ScalarV {
    Bool(bool),
    Int(i64),
    Uint(u64),
    Double(Double),
    String(Seq<char>),
    Bytes(Seq<u8>),
}

impl<'a> View for Scalar<'a> {
    type V = ScalarV;

    open spec fn view(&self) -> ScalarV {
        match self {
            Scalar::Bool(b) => ScalarV::Bool(*b),
            Scalar::Int(i) => ScalarV::Int(*i),
            Scalar::Uint(u) => ScalarV::Uint(*u),
            Scalar::Double(f) => ScalarV::Double(*f),
            Scalar::String(s) => ScalarV::String(s@),
            Scalar::Bytes(b) => ScalarV::Bytes(b@),
        }
    }
}

/// What `this` is bound to while a program runs; `M` is a parsed message.
#[derive(Debug)]
pub enum This<'a, M> {
    Scalar(Scalar<'a>),
    /// The message itself.
    Message(&'a M),
    /// A field of the message, by number: a list, a map, or a singular
    /// value, as the field's descriptor says.
    Field(&'a M, i32),
}

/// What a [`This`] holds.
pub enum ThisV<M> {
    Scalar(ScalarV),
    Message(M),
    Field(M, i32),
}

impl<'a, M> View for This<'a, M> {
    type V = ThisV<M>;

    open spec fn view(&self) -> ThisV<M> {
        match self {
            This::Scalar(s) => ThisV::Scalar(s@),
            This::Message(m) => ThisV::Message(**m),
            This::Field(m, number) => ThisV::Field(**m, *number),
        }
    }
}

/// One expression to compile.
#[derive(Debug)]
pub struct Expression {
    pub expression: String,
    /// The field of the rules message that `rule` is bound to while the
    /// expression runs, or 0 for none.
    pub rule_field_number: i32,
}

/// What an [`Expression`] holds.
pub struct ExpressionV {
    pub expression: Seq<char>,
    pub rule_field_number: i32,
}

impl View for Expression {
    type V = ExpressionV;

    open spec fn view(&self) -> ExpressionV {
        ExpressionV {
            expression: self.expression@,
            rule_field_number: self.rule_field_number,
        }
    }
}

/// What the expressions hold.
pub open spec fn expressions_of(expressions: Seq<Expression>) -> Seq<ExpressionV> {
    expressions.map_values(|e: Expression| e@)
}

/// An expression that failed.
#[derive(Debug)]
pub struct Failure {
    /// The index of the expression in the compiled set.
    pub index: usize,
    /// The string the expression produced, when it produced one.
    pub message: Option<String>,
}

/// What an expression produced.
#[derive(Debug)]
pub enum Value {
    Bool(bool),
    String(String),
    /// A value of any other type.
    Other,
}

/// What a [`Value`] holds.
pub enum ValueV {
    Bool(bool),
    String(Seq<char>),
    Other,
}

impl View for Value {
    type V = ValueV;

    open spec fn view(&self) -> ValueV {
        match self {
            Value::Bool(b) => ValueV::Bool(*b),
            Value::String(s) => ValueV::String(s@),
            Value::Other => ValueV::Other,
        }
    }
}

/// Why the runtime could not do what was asked.
#[derive(Debug)]
pub enum Error {
    /// An expression does not compile.
    Compilation(String),
    /// An expression failed while being evaluated.
    Runtime(String),
    /// A bad descriptor, an unknown type, an unparsable payload, or a field
    /// that does not exist.
    Argument(String),
    Unexpected(String),
}

/// What an [`Error`] holds.
pub enum ErrorV {
    Compilation(Seq<char>),
    Runtime(Seq<char>),
    Argument(Seq<char>),
    Unexpected(Seq<char>),
}

impl ErrorV {
    /// The message, whatever the kind.
    pub open spec fn text(self) -> Seq<char> {
        match self {
            ErrorV::Compilation(m) => m,
            ErrorV::Runtime(m) => m,
            ErrorV::Argument(m) => m,
            ErrorV::Unexpected(m) => m,
        }
    }
}

impl View for Error {
    type V = ErrorV;

    open spec fn view(&self) -> ErrorV {
        match self {
            Error::Compilation(m) => ErrorV::Compilation(m@),
            Error::Runtime(m) => ErrorV::Runtime(m@),
            Error::Argument(m) => ErrorV::Argument(m@),
            Error::Unexpected(m) => ErrorV::Unexpected(m@),
        }
    }
}

impl Error {
    /// The message, whatever the kind.
    pub fn message(&self) -> (r: &str)
        ensures
            r@ == self@.text(),
    {
        match self {
            Error::Compilation(m) => m.as_str(),
            Error::Runtime(m) => m.as_str(),
            Error::Argument(m) => m.as_str(),
            Error::Unexpected(m) => m.as_str(),
        }
    }
}

/// What the result of an evaluation holds.
pub open spec fn evaluation(r: Result<Value, Error>) -> Result<ValueV, ErrorV> {
    match r {
        Ok(v) => Ok(v@),
        Err(e) => Err(e@),
    }
}

/// What a result holds, whose value is its own model.
pub open spec fn outcome<T>(r: Result<T, Error>) -> Result<T, ErrorV> {
    match r {
        Ok(v) => Ok(v),
        Err(e) => Err(e@),
    }
}

/// The rules message that `rules` is bound to: its type and its serialized
/// form.
pub struct Binding {
    pub full_name: String,
    pub bytes: Vec<u8>,
}

/// What a [`Binding`] holds.
pub struct BindingV {
    pub full_name: Seq<char>,
    pub bytes: Seq<u8>,
}

impl View for Binding {
    type V = BindingV;

    open spec fn view(&self) -> BindingV {
        BindingV { full_name: self.full_name@, bytes: self.bytes@ }
    }
}

/// What an optional binding holds.
pub open spec fn binding_of(b: Option<Binding>) -> Option<BindingV> {
    match b {
        Some(b) => Some(b@),
        None => None,
    }
}

/// A CEL runtime.
///
/// Compiling, parsing and evaluating answer the same question the same way
/// for as long as no file is added: what they answer is named by `compiled`,
/// `parsed` and `evaluated`, and what adding a file does by `accepted` and
/// `with_file`. An engine in verified code defines those; one in ordinary
/// Rust leaves them out, and they stand for what it answers.
pub trait Engine: Sized {
    /// Compiled expressions.
    type Program;

    /// A parsed message.
    type Frame;

    /// What compiling the expressions gives.
    closed spec fn compiled(
        &self,
        rules: Option<BindingV>,
        expressions: Seq<ExpressionV>,
    ) -> Result<Self::Program, ErrorV> {
        arbitrary()
    }

    /// What parsing a serialized message gives.
    closed spec fn parsed(&self, full_name: Seq<char>, bytes: Seq<u8>) -> Result<
        Self::Frame,
        ErrorV,
    > {
        arbitrary()
    }

    /// What evaluating an expression of a program gives.
    closed spec fn evaluated(
        &self,
        program: Self::Program,
        index: int,
        this: ThisV<Self::Frame>,
    ) -> Result<ValueV, ErrorV> {
        arbitrary()
    }

    /// What adding a serialized file answers.
    closed spec fn accepted(&self, file: Seq<u8>) -> Result<(), ErrorV> {
        arbitrary()
    }

    /// The engine once a serialized file has been added.
    closed spec fn with_file(self, file: Seq<u8>) -> Self {
        arbitrary()
    }

    /// Registers a serialized `google.protobuf.FileDescriptorProto`.
    fn add_file(&mut self, file: &[u8]) -> (r: Result<(), Error>)
        ensures
            outcome(r) == old(self).accepted(file@),
            *final(self) == (*old(self)).with_file(file@),
    ;

    /// Compiles the expressions, with `rules` bound to the rules message.
    fn compile(&self, rules: &Option<Binding>, expressions: &Vec<Expression>) -> (r: Result<
        Self::Program,
        Error,
    >)
        ensures
            outcome(r) == self.compiled(binding_of(*rules), expressions_of(expressions@)),
    ;

    /// Parses a serialized message of type `full_name`.
    fn frame(&self, full_name: &str, bytes: &Vec<u8>) -> (r: Result<Self::Frame, Error>)
        ensures
            outcome(r) == self.parsed(full_name@, bytes@),
    ;

    /// Evaluates expression `index` of the program.
    fn eval(&self, program: &Self::Program, index: usize, this: &This<'_, Self::Frame>) -> (r:
        Result<Value, Error>)
        ensures
            evaluation(r) == self.evaluated(*program, index as int, this@),
    ;
}

/// What is said of a custom rule when there is no CEL runtime.
pub open spec fn no_cel_message() -> Seq<char> {
    "custom CEL rules require the `cel` feature of the protovalidate crate"@
}

/// The engine of a validator without CEL: no custom rule compiles.
#[derive(Debug)]
pub struct NoCel;

impl Engine for NoCel {
    type Program = ();

    type Frame = ();

    open spec fn compiled(&self, rules: Option<BindingV>, expressions: Seq<ExpressionV>) -> Result<
        (),
        ErrorV,
    > {
        Err(ErrorV::Compilation(no_cel_message()))
    }

    open spec fn parsed(&self, full_name: Seq<char>, bytes: Seq<u8>) -> Result<(), ErrorV> {
        Err(ErrorV::Unexpected(no_cel_message()))
    }

    open spec fn evaluated(&self, program: (), index: int, this: ThisV<()>) -> Result<
        ValueV,
        ErrorV,
    > {
        Err(ErrorV::Unexpected(no_cel_message()))
    }

    open spec fn accepted(&self, file: Seq<u8>) -> Result<(), ErrorV> {
        Ok(())
    }

    open spec fn with_file(self, file: Seq<u8>) -> NoCel {
        self
    }

    fn add_file(&mut self, file: &[u8]) -> (r: Result<(), Error>) {
        Ok(())
    }

    fn compile(&self, rules: &Option<Binding>, expressions: &Vec<Expression>) -> (r: Result<
        (),
        Error,
    >) {
        Err(
            Error::Compilation(
                "custom CEL rules require the `cel` feature of the protovalidate crate".to_owned(),
            ),
        )
    }

    fn frame(&self, full_name: &str, bytes: &Vec<u8>) -> (r: Result<(), Error>) {
        Err(
            Error::Unexpected(
                "custom CEL rules require the `cel` feature of the protovalidate crate".to_owned(),
            ),
        )
    }

    fn eval(&self, program: &(), index: usize, this: &This<'_, ()>) -> (r: Result<Value, Error>) {
        Err(
            Error::Unexpected(
                "custom CEL rules require the `cel` feature of the protovalidate crate".to_owned(),
            ),
        )
    }
}

} // verus!
