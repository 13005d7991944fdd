//! The expression model: every value and every form the interpreter handles is an
//! [`Expression`], a shared handle to an immutable [`ExpEnum`] node.

use std::rc::Rc;
use vstd::prelude::*;

verus! {

/// How a symbol node finds its value.
#[derive(Debug, PartialEq, Eq)]
pub enum SymLoc {
    /// Not resolved yet: looked up by name, the slow way.
    Unresolved,
    /// A global cell, which a dynamic binding of the same name overrides.
    Ref(usize),
    /// A fixed slot of a named scope: the scope's number, then the slot.
    Namespace(usize, usize),
    /// A fixed offset into the active call frame.
    Stack(usize),
}

/// A process handle: still running, or over with its exit status cached.
#[derive(Debug, PartialEq, Eq)]
pub enum ProcessState {
    Running(u32),
    Over(u32, i32),
}

/// A file handle. `Read` and `Write` carry the host's number for the open file.
#[derive(Debug, PartialEq, Eq)]
pub enum FileState {
    Stdin,
    Stdout,
    Stderr,
    Read(u64),
    Write(u64),
    Closed,
}

/// The native callables. The named ones are implemented here; `Native` is one of
/// the host's own, called with evaluated arguments.
#[derive(Debug, PartialEq, Eq)]
pub enum Callable {
    Values,
    ValuesNth,
    ValuesLength,
    Cd,
    PathExists,
    IsFile,
    IsDir,
    Pipe,
    Wait,
    Pid,
    Glob,
    If,
    Recur,
    Native(u64),
}

/// One value bound into a frame slot whenever a frame is made for the lambda.
#[derive(Debug, PartialEq, Eq)]
pub struct Capture {
    pub slot: usize,
    pub value: Expression,
}

/// The symbol table of a lambda: `names[i]` is the name of frame slot `i`
/// (parameters first, then the lambda itself, then further locals), and
/// `captures` are the slots that are filled from the defining scope.
#[derive(Debug, PartialEq, Eq)]
pub struct Symbols {
    pub namespace: usize,
    pub names: Vec<String>,
    pub captures: Vec<Capture>,
}

/// A lambda; a macro has the same shape and is called with unevaluated arguments.
#[derive(Debug, PartialEq, Eq)]
pub struct Lambda {
    pub params: Vec<String>,
    pub body: Expression,
    pub syms: Symbols,
    pub namespace: usize,
}

/// A shared handle to a node. Copying a handle never copies the node.
#[derive(Debug, PartialEq, Eq)]
pub struct Expression {
    pub node: Rc<ExpEnum>,
}

/// The variants of a node.
#[derive(Debug, PartialEq, Eq)]
pub enum ExpEnum {
    Nil,
    True,
    Int(i64),
    Char(String),
    CodePoint(char),
    /// Text; the flag says that substitution has already been done on it.
    String(String, bool),
    Symbol(String, SymLoc),
    Pair(Expression, Expression),
    Vector(Vec<Expression>),
    HashMap(Vec<(String, Expression)>),
    Lambda(Lambda),
    Macro(Lambda),
    Function(Callable),
    Process(ProcessState),
    File(FileState),
    Values(Vec<Expression>),
    /// A deferred call: the callable and its evaluated arguments.
    LazyFn(Expression, Vec<Expression>),
    /// A closure template that still has to capture its free variables.
    Wrapper(Expression),
    Quote,
    BackQuote,
    DeclareDef,
    DeclareVar,
    DeclareFn,
    DeclareMacro,
    Undefined,
}

/// What an expression is, as a mathematical value: text as its characters,
/// sequences as `Seq`, and the expressions below it in the same way.
pub enum Form {
    Nil,
    True,
    Int(i64),
    Char(Seq<char>),
    CodePoint(char),
    Text(Seq<char>, bool),
    Symbol(Seq<char>, SymLoc),
    Pair(Box<Form>, Box<Form>),
    Vector(Seq<Form>),
    HashMap(Seq<(Seq<char>, Form)>),
    Lambda(LambdaModel),
    Macro(LambdaModel),
    Function(Callable),
    Process(ProcessState),
    File(FileState),
    Values(Seq<Form>),
    LazyFn(Box<Form>, Seq<Form>),
    Wrapper(Box<Form>),
    Quote,
    BackQuote,
    DeclareDef,
    DeclareVar,
    DeclareFn,
    DeclareMacro,
    Undefined,
}

/// A capture as a mathematical value.
pub struct CaptureModel {
    pub slot: usize,
    pub value: Form,
}

/// A symbol table as a mathematical value.
pub struct SymbolsModel {
    pub namespace: usize,
    pub names: Seq<Seq<char>>,
    pub captures: Seq<CaptureModel>,
}

/// A lambda as a mathematical value.
pub struct LambdaModel {
    pub params: Seq<Seq<char>>,
    pub body: Box<Form>,
    pub syms: SymbolsModel,
    pub namespace: usize,
}

/// The characters of each of `names`.
pub open spec fn texts(names: Seq<String>) -> Seq<Seq<char>> {
    Seq::new(names.len(), |i: int| names[i]@)
}

/// The form of the node `node`.
pub open spec fn form_of(node: ExpEnum) -> Form
    decreases node,
{
    match node {
        ExpEnum::Nil => Form::Nil,
        ExpEnum::True => Form::True,
        ExpEnum::Int(n) => Form::Int(n),
        ExpEnum::Char(s) => Form::Char(s@),
        ExpEnum::CodePoint(c) => Form::CodePoint(c),
        ExpEnum::String(s, done) => Form::Text(s@, done),
        ExpEnum::Symbol(s, loc) => Form::Symbol(s@, loc),
        ExpEnum::Pair(a, b) => Form::Pair(Box::new(form_of(*a.node)), Box::new(form_of(*b.node))),
        ExpEnum::Vector(v) => Form::Vector(forms_of(v@)),
        ExpEnum::HashMap(m) => Form::HashMap(
            Seq::new(
                m@.len(),
                |i: int|
                    if 0 <= i < m@.len() {
                        (m@[i].0@, form_of(*m@[i].1.node))
                    } else {
                        (Seq::empty(), Form::Nil)
                    },
            ),
        ),
        ExpEnum::Lambda(l) => Form::Lambda(lambda_model(l)),
        ExpEnum::Macro(l) => Form::Macro(lambda_model(l)),
        ExpEnum::Function(c) => Form::Function(c),
        ExpEnum::Process(p) => Form::Process(p),
        ExpEnum::File(f) => Form::File(f),
        ExpEnum::Values(v) => Form::Values(forms_of(v@)),
        ExpEnum::LazyFn(f, args) => Form::LazyFn(Box::new(form_of(*f.node)), forms_of(args@)),
        ExpEnum::Wrapper(e) => Form::Wrapper(Box::new(form_of(*e.node))),
        ExpEnum::Quote => Form::Quote,
        ExpEnum::BackQuote => Form::BackQuote,
        ExpEnum::DeclareDef => Form::DeclareDef,
        ExpEnum::DeclareVar => Form::DeclareVar,
        ExpEnum::DeclareFn => Form::DeclareFn,
        ExpEnum::DeclareMacro => Form::DeclareMacro,
        ExpEnum::Undefined => Form::Undefined,
    }
}

/// The forms of the expressions `items`.
pub open spec fn forms_of(items: Seq<Expression>) -> Seq<Form>
    decreases items,
{
    Seq::new(
        items.len(),
        |i: int|
            if 0 <= i < items.len() {
                form_of(*items[i].node)
            } else {
                Form::Nil
            },
    )
}

/// The lambda `l` as a mathematical value.
pub open spec fn lambda_model(l: Lambda) -> LambdaModel
    decreases l,
{
    LambdaModel {
        params: texts(l.params@),
        body: Box::new(form_of(*l.body.node)),
        syms: symbols_model(l.syms),
        namespace: l.namespace,
    }
}

/// The symbol table `s` as a mathematical value.
pub open spec fn symbols_model(s: Symbols) -> SymbolsModel
    decreases s,
{
    SymbolsModel {
        namespace: s.namespace,
        names: texts(s.names@),
        captures: Seq::new(
            s.captures@.len(),
            |i: int|
                if 0 <= i < s.captures@.len() {
                    CaptureModel {
                        slot: s.captures@[i].slot,
                        value: form_of(*s.captures@[i].value.node),
                    }
                } else {
                    CaptureModel { slot: 0, value: Form::Nil }
                },
        ),
    }
}

impl View for Expression {
    type V = Form;

    open spec fn view(&self) -> Form {
        form_of(*self.node)
    }
}

impl View for Capture {
    type V = CaptureModel;

    open spec fn view(&self) -> CaptureModel {
        CaptureModel { slot: self.slot, value: self.value@ }
    }
}

impl View for Symbols {
    type V = SymbolsModel;

    open spec fn view(&self) -> SymbolsModel {
        symbols_model(*self)
    }
}

impl View for Lambda {
    type V = LambdaModel;

    open spec fn view(&self) -> LambdaModel {
        lambda_model(*self)
    }
}

/// `form` is the form of `node`, said variant by variant for the nodes that
/// hold other nodes.
pub open spec fn shaped(node: ExpEnum, form: Form) -> bool {
    &&& form == form_of(node)
    &&& node matches ExpEnum::Pair(a, b) ==> form == Form::Pair(Box::new(a@), Box::new(b@))
    &&& node matches ExpEnum::Vector(v) ==> form == Form::Vector(forms_of(v@))
    &&& node matches ExpEnum::Values(v) ==> form == Form::Values(forms_of(v@))
    &&& node matches ExpEnum::LazyFn(f, args) ==> form == Form::LazyFn(
        Box::new(f@),
        forms_of(args@),
    )
    &&& node matches ExpEnum::Wrapper(e) ==> form == Form::Wrapper(Box::new(e@))
    &&& node matches ExpEnum::Lambda(l) ==> form == Form::Lambda(l@)
    &&& node matches ExpEnum::Macro(l) ==> form == Form::Macro(l@)
}

/// The forms of a sequence with one more expression at its end.
pub proof fn lemma_forms_push(items: Seq<Expression>, last: Expression)
    ensures
        forms_of(items.push(last)) == forms_of(items).push(last@),
{
    assert(forms_of(items.push(last)) =~= forms_of(items).push(last@));
}

/// The forms of two sequences in a row.
pub proof fn lemma_forms_add(a: Seq<Expression>, b: Seq<Expression>)
    ensures
        forms_of(a + b) == forms_of(a) + forms_of(b),
{
    assert(forms_of(a + b) =~= forms_of(a) + forms_of(b));
}

/// The forms of a part of a sequence.
pub proof fn lemma_forms_subrange(items: Seq<Expression>, from: int, to: int)
    requires
        0 <= from <= to <= items.len(),
    ensures
        forms_of(items.subrange(from, to)) == forms_of(items).subrange(from, to),
{
    assert(forms_of(items.subrange(from, to)) =~= forms_of(items).subrange(from, to));
}

/// The forms of a sequence with one expression replaced.
pub proof fn lemma_forms_update(items: Seq<Expression>, at: int, value: Expression)
    requires
        0 <= at < items.len(),
    ensures
        forms_of(items.update(at, value)) == forms_of(items).update(at, value@),
{
    assert(forms_of(items.update(at, value)) =~= forms_of(items).update(at, value@));
}

/// `Rc::clone`: a second handle to the same allocation, so the value it points to
/// is the value the first one points to.
#[verifier::external_body]
fn share(node: &Rc<ExpEnum>) -> (r: Rc<ExpEnum>)
    ensures
        r == *node,
{
    Rc::clone(node)
}

impl Expression {
    /// A fresh node holding `data`.
    pub fn alloc_data(data: ExpEnum) -> (r: Expression)
        ensures
            *r.node == data,
            shaped(data, r@),
    {
        proof {
            reveal_with_fuel(form_of, 2);
        }
        Expression { node: Rc::new(data) }
    }

    /// The node behind the handle.
    pub fn get(&self) -> (r: &ExpEnum)
        ensures
            *r == *self.node,
            shaped(*r, self@),
    {
        proof {
            reveal_with_fuel(form_of, 2);
        }
        &*self.node
    }

    /// Another handle to the same node.
    pub fn dup(&self) -> (r: Expression)
        ensures
            r == *self,
    {
        Expression { node: share(&self.node) }
    }

    pub fn make_nil() -> (r: Expression)
        ensures
            r@ == Form::Nil,
    {
        Expression::alloc_data(ExpEnum::Nil)
    }

    pub fn make_true() -> (r: Expression)
        ensures
            r@ == Form::True,
    {
        Expression::alloc_data(ExpEnum::True)
    }

    pub fn make_int(n: i64) -> (r: Expression)
        ensures
            r@ == Form::Int(n),
    {
        Expression::alloc_data(ExpEnum::Int(n))
    }

    /// Unprocessed text.
    pub fn make_string(text: String) -> (r: Expression)
        ensures
            r@ == Form::Text(text@, false),
    {
        Expression::alloc_data(ExpEnum::String(text, false))
    }

    /// A list: the vector of `items`.
    pub fn with_list(items: Vec<Expression>) -> (r: Expression)
        ensures
            r@ == Form::Vector(forms_of(items@)),
    {
        Expression::alloc_data(ExpEnum::Vector(items))
    }
}

/// The handles of `items`, copied into a sequence of their own.
pub fn box_slice_it(items: &Vec<Expression>) -> (r: Vec<Expression>)
    ensures
        r@ == items@,
{
    let mut out: Vec<Expression> = Vec::new();
    let mut i: usize = 0;
    while i < items.len()
        invariant
            i <= items.len(),
            out@ == items@.take(i as int),
        decreases items.len() - i,
    {
        out.push(items[i].dup());
        i += 1;
    }
    out
}

/// The strings of `items`, copied.
pub fn copy_names(items: &Vec<String>) -> (r: Vec<String>)
    ensures
        r@ == items@,
{
    let mut out: Vec<String> = Vec::new();
    let mut i: usize = 0;
    while i < items.len()
        invariant
            i <= items.len(),
            out@ == items@.take(i as int),
        decreases items.len() - i,
    {
        out.push(items[i].clone());
        i += 1;
    }
    out
}

impl Symbols {
    /// A copy that shares the captured values.
    pub fn dup(&self) -> (r: Symbols)
        ensures
            r@ == self@,
    {
        let mut captures: Vec<Capture> = Vec::new();
        let mut i: usize = 0;
        while i < self.captures.len()
            invariant
                i <= self.captures.len(),
                captures@ == self.captures@.take(i as int),
            decreases self.captures.len() - i,
        {
            captures.push(Capture { slot: self.captures[i].slot, value: self.captures[i].value.dup() });
            i += 1;
        }
        let r = Symbols { namespace: self.namespace, names: copy_names(&self.names), captures };
        assert(r.captures@ == self.captures@);
        assert(r@.captures =~= self@.captures);
        r
    }

    /// The number of frame slots the table names.
    pub fn len(&self) -> (n: usize)
        ensures
            n == self@.names.len(),
    {
        self.names.len()
    }
}

impl Lambda {
    /// A copy that shares the body and the captured values.
    pub fn dup(&self) -> (r: Lambda)
        ensures
            r@ == self@,
    {
        Lambda {
            params: copy_names(&self.params),
            body: self.body.dup(),
            syms: self.syms.dup(),
            namespace: self.namespace,
        }
    }
}

} // verus!
