//! The state of one interpreter: the value stack and its frames, the named
//! scopes, the dynamic bindings, the flags that steer evaluation, the job table
//! and the variables of the process environment.

use crate::types::{forms_of, ExpEnum, Expression, Form, Symbols, SymbolsModel};
use vstd::prelude::*;
use vstd::string::*;

verus! {

/// One active call: where its slots begin on the value stack, and the names of
/// those slots.
#[derive(Debug, PartialEq, Eq)]
pub struct StackFrame {
    pub index: usize,
    pub symbols: Symbols,
}

#[derive(Debug, PartialEq, Eq, Clone, Copy)]
pub enum JobStatus {
    Running,
    Stopped,
    Done,
}

/// A pipeline that was started: the ids of its processes in the order they were
/// started, their names, and how it stands.
#[derive(Debug, PartialEq, Eq)]
pub struct Job {
    pub pids: Vec<u32>,
    pub names: Vec<String>,
    pub status: JobStatus,
}

/// Which kinds of form a call may resolve to.
#[derive(Debug, PartialEq, Eq, Clone, Copy)]
pub enum FormType {
    Any,
    FormOnly,
    ExternalOnly,
}

/// Where a standard stream of the processes that are started goes.
#[derive(Debug, PartialEq, Eq)]
pub enum IOState {
    FileAppend(String),
    FileOverwrite(String),
    Pipe,
    Inherit,
    Null,
}

/// The part of the state that single evaluations set and reset.
#[derive(Debug, PartialEq, Eq)]
pub struct EnvState {
    /// Set by `recur`: the number of arguments it handed over.
    pub recur_num_args: Option<usize>,
    /// How many evaluations are nested at the moment.
    pub eval_level: u32,
    pub stdout_status: Option<IOState>,
    pub stderr_status: Option<IOState>,
    /// The process group of the pipeline that is being started.
    pub pipe_pgid: Option<u32>,
}

/// One binding of a named scope.
#[derive(Debug, PartialEq, Eq)]
pub struct Entry {
    pub name: String,
    pub value: Expression,
    pub doc: String,
}

/// A named scope. A name is looked up from the front, so the first entry with a
/// name is the one that counts.
#[derive(Debug, PartialEq, Eq)]
pub struct Namespace {
    pub name: String,
    pub entries: Vec<Entry>,
}

/// One dynamic binding; the latest one of a name is the one that counts.
#[derive(Debug, PartialEq, Eq)]
pub struct DynBinding {
    pub name: String,
    pub value: Expression,
}

/// One variable of the process environment.
#[derive(Debug, PartialEq, Eq)]
pub struct Var {
    pub name: String,
    pub value: String,
}

#[derive(Debug, PartialEq, Eq)]
pub struct Environment {
    /// One slot for each variable that the active calls have bound.
    pub stack: Vec<Expression>,
    /// The active calls, innermost last.
    pub stack_frames: Vec<StackFrame>,
    /// Where the slots of the innermost call begin.
    pub stack_frame_base: usize,
    /// The number of the current scope in `namespaces`.
    pub namespace: usize,
    /// The named scopes; the first is the root scope.
    pub namespaces: Vec<Namespace>,
    /// The global cells that resolved symbols point to.
    pub cells: Vec<Expression>,
    pub dynamic_scope: Vec<DynBinding>,
    /// The interrupt flag: set by the host, cleared by the evaluation that finds it.
    pub sig_int: bool,
    /// Set when the program asked to exit: evaluation unwinds with nil.
    pub exit_code: Option<i32>,
    /// A value on its way out of a block.
    pub return_val: Option<Expression>,
    pub state: EnvState,
    /// Whether a symbol that names nothing stands for its own text.
    pub loose_symbols: bool,
    /// Whether a call to a lambda may be put off as a continuation.
    pub allow_lazy_fn: bool,
    pub supress_eval: bool,
    pub str_ignore_expand: bool,
    pub in_pipe: bool,
    pub run_background: bool,
    pub grab_proc_output: bool,
    pub form_type: FormType,
    pub data_in: Option<Expression>,
    pub jobs: Vec<Job>,
    pub vars: Vec<Var>,
    /// Strings that are kept once and handed out again.
    pub interner: Vec<Expression>,
    /// How many evaluation steps may still be taken.
    pub steps_left: u64,
}

/// The deepest nesting of evaluations that is accepted.
pub const EVAL_DEPTH_LIMIT: u32 = 500;

/// A frame as a mathematical value.
pub struct FrameModel {
    pub index: usize,
    pub symbols: SymbolsModel,
}

/// A binding of a scope as a mathematical value.
pub struct EntryModel {
    pub name: Seq<char>,
    pub value: Form,
    pub doc: Seq<char>,
}

/// A scope as a mathematical value.
pub struct ScopeModel {
    pub name: Seq<char>,
    pub entries: Seq<EntryModel>,
}

/// A dynamic binding as a mathematical value.
pub struct BindingModel {
    pub name: Seq<char>,
    pub value: Form,
}

/// A variable of the environment as a mathematical value.
pub struct VarModel {
    pub name: Seq<char>,
    pub value: Seq<char>,
}

/// The state as a mathematical value: what evaluation reads of it as forms and
/// sequences of characters, the rest as it is.
pub struct EnvModel {
    pub stack: Seq<Form>,
    pub stack_frames: Seq<FrameModel>,
    pub stack_frame_base: usize,
    pub namespace: usize,
    pub namespaces: Seq<ScopeModel>,
    pub cells: Seq<Form>,
    pub dynamic_scope: Seq<BindingModel>,
    pub sig_int: bool,
    pub exit_code: Option<i32>,
    pub return_val: Option<Expression>,
    pub state: EnvState,
    pub loose_symbols: bool,
    pub allow_lazy_fn: bool,
    pub supress_eval: bool,
    pub str_ignore_expand: bool,
    pub in_pipe: bool,
    pub run_background: bool,
    pub grab_proc_output: bool,
    pub form_type: FormType,
    pub data_in: Option<Expression>,
    pub jobs: Seq<Job>,
    pub vars: Seq<VarModel>,
    pub interner: Seq<Expression>,
    pub steps_left: u64,
}

impl View for StackFrame {
    type V = FrameModel;

    open spec fn view(&self) -> FrameModel {
        FrameModel { index: self.index, symbols: self.symbols@ }
    }
}

impl View for Entry {
    type V = EntryModel;

    open spec fn view(&self) -> EntryModel {
        EntryModel { name: self.name@, value: self.value@, doc: self.doc@ }
    }
}

impl View for Namespace {
    type V = ScopeModel;

    open spec fn view(&self) -> ScopeModel {
        ScopeModel { name: self.name@, entries: Seq::new(self.entries@.len(), |i: int| self.entries@[i]@) }
    }
}

impl View for DynBinding {
    type V = BindingModel;

    open spec fn view(&self) -> BindingModel {
        BindingModel { name: self.name@, value: self.value@ }
    }
}

impl View for Var {
    type V = VarModel;

    open spec fn view(&self) -> VarModel {
        VarModel { name: self.name@, value: self.value@ }
    }
}

impl View for Environment {
    type V = EnvModel;

    open spec fn view(&self) -> EnvModel {
        EnvModel {
            stack: forms_of(self.stack@),
            stack_frames: Seq::new(self.stack_frames@.len(), |i: int| self.stack_frames@[i]@),
            stack_frame_base: self.stack_frame_base,
            namespace: self.namespace,
            namespaces: Seq::new(self.namespaces@.len(), |i: int| self.namespaces@[i]@),
            cells: forms_of(self.cells@),
            dynamic_scope: Seq::new(self.dynamic_scope@.len(), |i: int| self.dynamic_scope@[i]@),
            sig_int: self.sig_int,
            exit_code: self.exit_code,
            return_val: self.return_val,
            state: self.state,
            loose_symbols: self.loose_symbols,
            allow_lazy_fn: self.allow_lazy_fn,
            supress_eval: self.supress_eval,
            str_ignore_expand: self.str_ignore_expand,
            in_pipe: self.in_pipe,
            run_background: self.run_background,
            grab_proc_output: self.grab_proc_output,
            form_type: self.form_type,
            data_in: self.data_in,
            jobs: self.jobs@,
            vars: Seq::new(self.vars@.len(), |i: int| self.vars@[i]@),
            interner: self.interner@,
            steps_left: self.steps_left,
        }
    }
}

/// The first position at or after `from` at which `keys` holds `key`, or the
/// length of `keys` if there is none.
pub open spec fn first_named(keys: Seq<Seq<char>>, key: Seq<char>, from: int) -> int
    decreases keys.len() - from,
{
    if from < 0 || from >= keys.len() {
        keys.len() as int
    } else if keys[from] == key {
        from
    } else {
        first_named(keys, key, from + 1)
    }
}

/// The last position before `upto` at which `keys` holds `key`, or -1.
pub open spec fn last_named(keys: Seq<Seq<char>>, key: Seq<char>, upto: int) -> int
    decreases upto,
{
    if upto <= 0 || upto > keys.len() {
        -1
    } else if keys[upto - 1] == key {
        upto - 1
    } else {
        last_named(keys, key, upto - 1)
    }
}

/// Where a lookup lands: on the key, and past every position that holds another.
pub proof fn lemma_first_named(keys: Seq<Seq<char>>, key: Seq<char>, from: int)
    requires
        0 <= from <= keys.len(),
    ensures
        from <= first_named(keys, key, from) <= keys.len(),
        first_named(keys, key, from) < keys.len() ==> keys[first_named(keys, key, from)] == key,
        forall|j: int| from <= j < first_named(keys, key, from) ==> keys[j] != key,
    decreases keys.len() - from,
{
    if from < keys.len() && keys[from] != key {
        lemma_first_named(keys, key, from + 1);
    }
}

/// Looking a key up in a sequence with one more key at its end.
pub proof fn lemma_first_named_push(
    keys: Seq<Seq<char>>,
    last: Seq<char>,
    key: Seq<char>,
    from: int,
)
    requires
        0 <= from <= keys.len(),
    ensures
        first_named(keys.push(last), key, from) == if first_named(keys, key, from) < keys.len() {
            first_named(keys, key, from)
        } else if key == last {
            keys.len() as int
        } else {
            keys.len() as int + 1
        },
    decreases keys.len() - from,
{
    if from < keys.len() {
        assert(keys.push(last)[from] == keys[from]);
        if keys[from] != key {
            lemma_first_named_push(keys, last, key, from + 1);
        }
    } else {
        assert(keys.push(last)[from] == last);
        assert(first_named(keys.push(last), key, from + 1) == keys.len() + 1);
    }
}

/// The position of the name `name` among `names`.
pub fn find_name(names: &Vec<String>, name: &String) -> (r: Option<usize>)
    ensures
        match r {
            Some(i) => i < names.len() && i == first_named(crate::types::texts(names@), name@, 0),
            None => first_named(crate::types::texts(names@), name@, 0) == names.len(),
        },
{
    let mut i: usize = 0;
    while i < names.len()
        invariant
            i <= names.len(),
            first_named(crate::types::texts(names@), name@, 0) == first_named(
                crate::types::texts(names@),
                name@,
                i as int,
            ),
        decreases names.len() - i,
    {
        if names[i] == *name {
            return Some(i);
        }
        i += 1;
    }
    None
}

impl ScopeModel {
    /// The names of the entries, in order.
    pub open spec fn keys(self) -> Seq<Seq<char>> {
        Seq::new(self.entries.len(), |i: int| self.entries[i].name)
    }

    /// The value bound to `name`, if any.
    pub open spec fn value_of(self, name: Seq<char>) -> Option<Form> {
        let i = first_named(self.keys(), name, 0);
        if i < self.entries.len() {
            Some(self.entries[i].value)
        } else {
            None
        }
    }

    /// The text that documents `name`, if `name` is bound.
    pub open spec fn doc_of(self, name: Seq<char>) -> Option<Seq<char>> {
        let i = first_named(self.keys(), name, 0);
        if i < self.entries.len() {
            Some(self.entries[i].doc)
        } else {
            None
        }
    }

    /// The scope with `name` bound to `value` and documented by `doc`: in place
    /// where the scope binds the name already, in a new last entry where not.
    pub open spec fn inserted(self, name: Seq<char>, value: Form, doc: Seq<char>) -> ScopeModel {
        let i = first_named(self.keys(), name, 0);
        let entry = EntryModel { name, value, doc };
        ScopeModel {
            name: self.name,
            entries: if i < self.entries.len() {
                self.entries.update(i, entry)
            } else {
                self.entries.push(entry)
            },
        }
    }
}

/// Whether no key occurs twice in `keys`.
pub open spec fn each_once(keys: Seq<Seq<char>>) -> bool {
    forall|i: int, j: int| 0 <= i < j < keys.len() ==> keys[i] != keys[j]
}

/// A scope in which every name occurs once is one still after a name is bound.
pub proof fn lemma_inserted_once(scope: ScopeModel, name: Seq<char>, value: Form, doc: Seq<char>)
    requires
        each_once(scope.keys()),
    ensures
        each_once(scope.inserted(name, value, doc).keys()),
{
    let after = scope.inserted(name, value, doc);
    let i = first_named(scope.keys(), name, 0);
    lemma_first_named(scope.keys(), name, 0);
    if i < scope.entries.len() {
        assert(after.keys() =~= scope.keys());
    } else {
        assert(after.keys() =~= scope.keys().push(name));
    }
}

/// Variables of which every name occurs once are such still after one is set.
pub proof fn lemma_with_var_once(vars: Seq<VarModel>, name: Seq<char>, value: Seq<char>)
    requires
        each_once(var_keys(vars)),
    ensures
        each_once(var_keys(with_var(vars, name, value))),
{
    let after = with_var(vars, name, value);
    let i = first_named(var_keys(vars), name, 0);
    lemma_first_named(var_keys(vars), name, 0);
    if i < vars.len() {
        assert(var_keys(after) =~= var_keys(vars));
    } else {
        assert(var_keys(after) =~= var_keys(vars).push(name));
    }
}

/// After a name is bound it stands for its new value and documentation, and
/// every other name for what it stood for before.
pub proof fn lemma_inserted(scope: ScopeModel, name: Seq<char>, value: Form, doc: Seq<char>)
    ensures
        scope.inserted(name, value, doc).value_of(name) == Some(value),
        scope.inserted(name, value, doc).doc_of(name) == Some(doc),
        forall|other: Seq<char>|
            other != name ==> #[trigger] scope.inserted(name, value, doc).value_of(other)
                == scope.value_of(other),
        forall|other: Seq<char>|
            other != name ==> #[trigger] scope.inserted(name, value, doc).doc_of(other)
                == scope.doc_of(other),
        scope.inserted(name, value, doc).entries.len() == if scope.value_of(name) is Some {
            scope.entries.len()
        } else {
            scope.entries.len() + 1
        },
{
    let after = scope.inserted(name, value, doc);
    let i = first_named(scope.keys(), name, 0);
    lemma_first_named(scope.keys(), name, 0);
    if i < scope.entries.len() {
        assert(after.keys() =~= scope.keys());
        assert forall|other: Seq<char>| other != name implies after.value_of(other)
            == scope.value_of(other) && after.doc_of(other) == scope.doc_of(other) by {
            lemma_first_named(scope.keys(), other, 0);
        }
    } else {
        assert(after.keys() =~= scope.keys().push(name));
        assert forall|other: Seq<char>|
            first_named(after.keys(), other, 0) == if first_named(scope.keys(), other, 0)
                < scope.entries.len() {
                first_named(scope.keys(), other, 0)
            } else if other == name {
                scope.entries.len() as int
            } else {
                after.entries.len() as int
            } by {
            lemma_first_named_push(scope.keys(), name, other, 0);
        }
        assert forall|other: Seq<char>| other != name implies after.value_of(other)
            == scope.value_of(other) && after.doc_of(other) == scope.doc_of(other) by {
            lemma_first_named(scope.keys(), other, 0);
        }
    }
}

impl Namespace {
    /// An empty scope called `name`.
    pub fn new(name: String) -> (r: Namespace)
        ensures
            r@ == (ScopeModel { name: name@, entries: Seq::empty() }),
    {
        let r = Namespace { name, entries: Vec::new() };
        assert(r@.entries =~= Seq::empty());
        r
    }

    /// The position of the entry that binds `name`.
    pub fn find(&self, name: &String) -> (r: Option<usize>)
        ensures
            match r {
                Some(i) => i < self@.entries.len() && i == first_named(self@.keys(), name@, 0),
                None => first_named(self@.keys(), name@, 0) == self@.entries.len(),
            },
    {
        let mut i: usize = 0;
        while i < self.entries.len()
            invariant
                i <= self.entries.len(),
                first_named(self@.keys(), name@, 0) == first_named(self@.keys(), name@, i as int),
            decreases self.entries.len() - i,
        {
            if self.entries[i].name == *name {
                return Some(i);
            }
            i += 1;
        }
        None
    }

    /// The value bound to `name`.
    pub fn get(&self, name: &String) -> (r: Option<Expression>)
        ensures
            match r {
                Some(v) => self@.value_of(name@) == Some(v@),
                None => self@.value_of(name@) is None,
            },
    {
        match self.find(name) {
            Some(i) => Some(self.entries[i].value.dup()),
            None => None,
        }
    }

    /// The value in slot `idx`.
    pub fn get_idx(&self, idx: usize) -> (r: Option<Expression>)
        ensures
            match r {
                Some(v) => idx < self@.entries.len() && v@ == self@.entries[idx as int].value,
                None => idx >= self@.entries.len(),
            },
    {
        if idx < self.entries.len() {
            Some(self.entries[idx].value.dup())
        } else {
            None
        }
    }

    /// Binds `name` to `value`, documented by `doc`: in place where the scope
    /// binds the name already, in a new last slot where it does not.
    pub fn insert(&mut self, name: String, value: Expression, doc: String)
        ensures
            final(self)@ == old(self)@.inserted(name@, value@, doc@),
            each_once(old(self)@.keys()) ==> each_once(final(self)@.keys()),
    {
        proof {
            if each_once(self@.keys()) {
                lemma_inserted_once(self@, name@, value@, doc@);
            }
        }
        let found = self.find(&name);
        match found {
            Some(i) => {
                self.entries[i] = Entry { name, value, doc };
            },
            None => {
                self.entries.push(Entry { name, value, doc });
            },
        }
        assert(self@.entries =~= old(self)@.inserted(name@, value@, doc@).entries);
    }
}

/// The names of `vars`, in order.
pub open spec fn var_keys(vars: Seq<VarModel>) -> Seq<Seq<char>> {
    Seq::new(vars.len(), |i: int| vars[i].name)
}

/// The value of the variable called `name`, if `vars` has one.
pub open spec fn var_value(vars: Seq<VarModel>, name: Seq<char>) -> Option<Seq<char>> {
    let i = first_named(var_keys(vars), name, 0);
    if i < vars.len() {
        Some(vars[i].value)
    } else {
        None
    }
}

/// `vars` with the variable `name` set to `value`: in place where there is one
/// of that name, at the end where there is none.
pub open spec fn with_var(vars: Seq<VarModel>, name: Seq<char>, value: Seq<char>) -> Seq<
    VarModel,
> {
    let i = first_named(var_keys(vars), name, 0);
    if i < vars.len() {
        vars.update(i, VarModel { name, value })
    } else {
        vars.push(VarModel { name, value })
    }
}

/// After a variable is set it has its new value, and every other variable the
/// value it had.
pub proof fn law_variable_set(vars: Seq<VarModel>, name: Seq<char>, value: Seq<char>)
    ensures
        var_value(with_var(vars, name, value), name) == Some(value),
        forall|other: Seq<char>|
            other != name ==> #[trigger] var_value(with_var(vars, name, value), other)
                == var_value(vars, other),
{
    let after = with_var(vars, name, value);
    let i = first_named(var_keys(vars), name, 0);
    lemma_first_named(var_keys(vars), name, 0);
    if i < vars.len() {
        assert(var_keys(after) =~= var_keys(vars));
        assert forall|other: Seq<char>| other != name implies var_value(after, other)
            == var_value(vars, other) by {
            lemma_first_named(var_keys(vars), other, 0);
        }
    } else {
        assert(var_keys(after) =~= var_keys(vars).push(name));
        assert forall|other: Seq<char>|
            first_named(var_keys(after), other, 0) == if first_named(var_keys(vars), other, 0)
                < vars.len() {
                first_named(var_keys(vars), other, 0)
            } else if other == name {
                vars.len() as int
            } else {
                after.len() as int
            } by {
            lemma_first_named_push(var_keys(vars), name, other, 0);
        }
        assert forall|other: Seq<char>| other != name implies var_value(after, other)
            == var_value(vars, other) by {
            lemma_first_named(var_keys(vars), other, 0);
        }
    }
}

impl EnvModel {
    /// The names of the dynamic bindings, in order.
    pub open spec fn dynamic_keys(self) -> Seq<Seq<char>> {
        Seq::new(self.dynamic_scope.len(), |i: int| self.dynamic_scope[i].name)
    }

    /// The latest dynamic binding of `name`.
    pub open spec fn dynamic_value(self, name: Seq<char>) -> Option<Form> {
        let i = last_named(self.dynamic_keys(), name, self.dynamic_scope.len() as int);
        if i >= 0 {
            Some(self.dynamic_scope[i].value)
        } else {
            None
        }
    }

    /// The value in the slot called `name` of the innermost call.
    pub open spec fn frame_value(self, name: Seq<char>) -> Option<Form> {
        if self.stack_frames.len() == 0 {
            None
        } else {
            let frame = self.stack_frames.last();
            let slot = first_named(frame.symbols.names, name, 0);
            if slot < frame.symbols.names.len() && frame.index + slot < self.stack.len() {
                Some(self.stack[frame.index + slot])
            } else {
                None
            }
        }
    }

    /// The value that scope number `scope` binds to `name`.
    pub open spec fn scope_value(self, scope: int, name: Seq<char>) -> Option<Form> {
        if 0 <= scope < self.namespaces.len() {
            self.namespaces[scope].value_of(name)
        } else {
            None
        }
    }

    /// What a name stands for: its latest dynamic binding; else the slot of that
    /// name in the innermost call; else its binding in the current scope; else
    /// its binding in the root scope.
    pub open spec fn lookup(self, name: Seq<char>) -> Option<Form> {
        if self.dynamic_value(name) is Some {
            self.dynamic_value(name)
        } else if self.frame_value(name) is Some {
            self.frame_value(name)
        } else if self.scope_value(self.namespace as int, name) is Some {
            self.scope_value(self.namespace as int, name)
        } else {
            self.scope_value(0, name)
        }
    }

    /// The value at offset `idx` of the innermost call's slots.
    pub open spec fn stack_value(self, idx: usize) -> Option<Form> {
        if self.stack_frame_base + idx < self.stack.len() {
            Some(self.stack[self.stack_frame_base + idx])
        } else {
            None
        }
    }
}

/// `r` is a handle to the form `want`, or none where there is none.
pub open spec fn found(r: Option<Expression>, want: Option<Form>) -> bool {
    match r {
        Some(v) => want == Some(v@),
        None => want is None,
    }
}

impl Environment {
    /// A fresh interpreter: nothing on the stack, the root scope alone, no
    /// variables, every flag off, and the largest allowance of steps.
    pub fn new() -> (r: Environment)
        ensures
            r@ == initial(),
    {
        let mut namespaces: Vec<Namespace> = Vec::new();
        namespaces.push(Namespace::new(String::from_str("root")));
        let r = Environment {
            stack: Vec::new(),
            stack_frames: Vec::new(),
            stack_frame_base: 0,
            namespace: 0,
            namespaces,
            cells: Vec::new(),
            dynamic_scope: Vec::new(),
            sig_int: false,
            exit_code: None,
            return_val: None,
            state: EnvState {
                recur_num_args: None,
                eval_level: 0,
                stdout_status: None,
                stderr_status: None,
                pipe_pgid: None,
            },
            loose_symbols: false,
            allow_lazy_fn: false,
            supress_eval: false,
            str_ignore_expand: false,
            in_pipe: false,
            run_background: false,
            grab_proc_output: false,
            form_type: FormType::Any,
            data_in: None,
            jobs: Vec::new(),
            vars: Vec::new(),
            interner: Vec::new(),
            steps_left: u64::MAX,
        };
        proof {
            assert(r@.stack =~= Seq::empty());
            assert(r@.stack_frames =~= Seq::empty());
            assert(r@.namespaces =~= seq![ScopeModel { name: "root"@, entries: Seq::empty() }]);
            assert(r@.cells =~= Seq::empty());
            assert(r@.dynamic_scope =~= Seq::empty());
            assert(r@.vars =~= Seq::empty());
            assert(r@.jobs =~= Seq::empty());
            assert(r@.interner =~= Seq::empty());
        }
        r
    }

    pub fn get_dynamic(&self, name: &String) -> (r: Option<Expression>)
        ensures
            found(r, self@.dynamic_value(name@)),
    {
        let mut n: usize = self.dynamic_scope.len();
        while n > 0
            invariant
                n <= self.dynamic_scope.len(),
                last_named(self@.dynamic_keys(), name@, self@.dynamic_scope.len() as int)
                    == last_named(self@.dynamic_keys(), name@, n as int),
            decreases n,
        {
            if self.dynamic_scope[n - 1].name == *name {
                return Some(self.dynamic_scope[n - 1].value.dup());
            }
            n -= 1;
        }
        None
    }

    pub fn get_from_frame(&self, name: &String) -> (r: Option<Expression>)
        ensures
            found(r, self@.frame_value(name@)),
    {
        if self.stack_frames.len() == 0 {
            return None;
        }
        let frame = &self.stack_frames[self.stack_frames.len() - 1];
        assert(self@.stack_frames.last() == frame@);
        match find_name(&frame.symbols.names, name) {
            Some(slot) => {
                if slot < self.stack.len() && frame.index < self.stack.len() - slot {
                    Some(self.stack[frame.index + slot].dup())
                } else {
                    None
                }
            },
            None => None,
        }
    }

    pub fn get_from_scope(&self, scope: usize, name: &String) -> (r: Option<Expression>)
        ensures
            found(r, self@.scope_value(scope as int, name@)),
    {
        if scope < self.namespaces.len() {
            self.namespaces[scope].get(name)
        } else {
            None
        }
    }

    /// What `name` stands for.
    pub fn get_expression(&self, name: &String) -> (r: Option<Expression>)
        ensures
            found(r, self@.lookup(name@)),
    {
        let d = self.get_dynamic(name);
        if d.is_some() {
            return d;
        }
        let f = self.get_from_frame(name);
        if f.is_some() {
            return f;
        }
        let s = self.get_from_scope(self.namespace, name);
        if s.is_some() {
            return s;
        }
        self.get_from_scope(0, name)
    }

    /// The value at offset `idx` of the innermost call's slots.
    pub fn get_expression_stack(&self, idx: usize) -> (r: Option<Expression>)
        ensures
            found(r, self@.stack_value(idx)),
    {
        if idx < self.stack.len() && self.stack_frame_base < self.stack.len() - idx {
            Some(self.stack[self.stack_frame_base + idx].dup())
        } else {
            None
        }
    }

    /// The value of the environment variable `name`.
    pub fn get_var(&self, name: &String) -> (r: Option<String>)
        ensures
            match r {
                Some(v) => var_value(self@.vars, name@) == Some(v@),
                None => var_value(self@.vars, name@) is None,
            },
    {
        let mut i: usize = 0;
        while i < self.vars.len()
            invariant
                i <= self.vars.len(),
                first_named(var_keys(self@.vars), name@, 0) == first_named(
                    var_keys(self@.vars),
                    name@,
                    i as int,
                ),
            decreases self.vars.len() - i,
        {
            if self.vars[i].name == *name {
                return Some(self.vars[i].value.clone());
            }
            i += 1;
        }
        None
    }

    /// Sets the environment variable `name` to `value`.
    pub fn set_var(&mut self, name: String, value: String)
        ensures
            final(self)@ == (EnvModel {
                vars: with_var(old(self)@.vars, name@, value@),
                ..old(self)@
            }),
            each_once(var_keys(old(self)@.vars)) ==> each_once(var_keys(final(self)@.vars)),
    {
        proof {
            if each_once(var_keys(self@.vars)) {
                lemma_with_var_once(self@.vars, name@, value@);
            }
        }
        let ghost name_chars = name@;
        let ghost value_chars = value@;
        let mut i: usize = 0;
        while i < self.vars.len()
            invariant
                i <= self.vars.len(),
                name@ == name_chars,
                value@ == value_chars,
                *self == *old(self),
                each_once(var_keys(old(self)@.vars)) ==> each_once(
                    var_keys(with_var(old(self)@.vars, name_chars, value_chars)),
                ),
                first_named(var_keys(self@.vars), name@, 0) == first_named(
                    var_keys(self@.vars),
                    name@,
                    i as int,
                ),
            decreases self.vars.len() - i,
        {
            if self.vars[i].name == name {
                self.vars[i] = Var { name, value };
                assert(self@.vars =~= with_var(old(self)@.vars, name_chars, value_chars));
                return ;
            }
            i += 1;
        }
        self.vars.push(Var { name, value });
        assert(self@.vars =~= with_var(old(self)@.vars, name_chars, value_chars));
    }
}

impl Environment {
    /// Takes one step from the allowance.
    pub fn take_step(&mut self)
        requires
            old(self).steps_left > 0,
        ensures
            final(self)@ == (EnvModel {
                steps_left: (old(self).steps_left - 1) as u64,
                ..old(self)@
            }),
    {
        self.steps_left = self.steps_left - 1;
    }

    /// Drops a pending `recur`.
    pub fn drop_signal(&mut self)
        ensures
            final(self)@ == (EnvModel {
                state: EnvState { recur_num_args: None, ..old(self).state },
                ..old(self)@
            }),
    {
        self.state.recur_num_args = None;
    }

    /// Clears the interrupt flag.
    pub fn clear_interrupt(&mut self)
        ensures
            final(self)@ == (EnvModel { sig_int: false, ..old(self)@ }),
    {
        self.sig_int = false;
    }

    /// Makes `namespace` the current scope.
    pub fn set_scope(&mut self, namespace: usize)
        ensures
            final(self)@ == (EnvModel { namespace, ..old(self)@ }),
    {
        self.namespace = namespace;
    }

    /// Enters the scope of a call: `namespace` is current, and symbols are not
    /// loose.
    pub fn enter_call(&mut self, namespace: usize)
        ensures
            final(self)@ == (EnvModel { namespace, loose_symbols: false, ..old(self)@ }),
    {
        self.namespace = namespace;
        self.loose_symbols = false;
    }
}

/// The state of a fresh interpreter.
pub open spec fn initial() -> EnvModel {
    EnvModel {
        stack: Seq::empty(),
        stack_frames: Seq::empty(),
        stack_frame_base: 0,
        namespace: 0,
        namespaces: seq![ScopeModel { name: "root"@, entries: Seq::empty() }],
        cells: Seq::empty(),
        dynamic_scope: Seq::empty(),
        sig_int: false,
        exit_code: None,
        return_val: None,
        state: EnvState {
            recur_num_args: None,
            eval_level: 0,
            stdout_status: None,
            stderr_status: None,
            pipe_pgid: None,
        },
        loose_symbols: false,
        allow_lazy_fn: false,
        supress_eval: false,
        str_ignore_expand: false,
        in_pipe: false,
        run_background: false,
        grab_proc_output: false,
        form_type: FormType::Any,
        data_in: None,
        jobs: Seq::empty(),
        vars: Seq::empty(),
        interner: Seq::empty(),
        steps_left: u64::MAX,
    }
}

/// What nothing in the interpreter changes: the jobs that are in the table stay
/// as they are, the number of scopes and the nesting of evaluations stay, the
/// allowance of steps never grows, and the flags and redirections that steer
/// evaluation are as they were.
pub open spec fn held(a: EnvModel, b: EnvModel) -> bool {
    &&& b.namespaces.len() == a.namespaces.len()
    &&& b.state.eval_level == a.state.eval_level
    &&& b.steps_left <= a.steps_left
    &&& b.jobs.len() >= a.jobs.len()
    &&& forall|i: int| 0 <= i < a.jobs.len() ==> #[trigger] b.jobs[i] == a.jobs[i]
    &&& b.form_type == a.form_type
    &&& b.allow_lazy_fn == a.allow_lazy_fn
    &&& b.supress_eval == a.supress_eval
    &&& b.str_ignore_expand == a.str_ignore_expand
    &&& b.in_pipe == a.in_pipe
    &&& b.run_background == a.run_background
    &&& b.data_in == a.data_in
    &&& b.state.stdout_status == a.state.stdout_status
    &&& b.state.stderr_status == a.state.stderr_status
}

/// What no evaluation changes, whatever it evaluates: what nothing changes,
/// and the stack and the list of frames never get shorter.
/// Whether the first `n` slots of the stack hold in `b` what they hold in `a`.
pub open spec fn same_slots(a: EnvModel, b: EnvModel, n: int) -> bool {
    forall|i: int| 0 <= i < n && i < a.stack.len() ==> #[trigger] b.stack[i] == a.stack[i]
}

/// Where the slots that the innermost call of `env` may write to begin: at its
/// frame, and at the top of the stack where no call is active.
pub open spec fn floor(env: EnvModel) -> int {
    if env.stack_frames.len() > 0 && env.stack_frames.last().index < env.stack.len() {
        env.stack_frames.last().index as int
    } else {
        env.stack.len() as int
    }
}

pub open spec fn within(a: EnvModel, b: EnvModel) -> bool {
    &&& held(a, b)
    &&& b.stack.len() >= a.stack.len()
    &&& b.stack_frames.len() >= a.stack_frames.len()
    &&& forall|i: int| 0 <= i < a.stack_frames.len() ==> #[trigger] b.stack_frames[i] == a.stack_frames[i]
    &&& floor(b) >= floor(a)
    &&& forall|i: int| 0 <= i < floor(a) ==> #[trigger] b.stack[i] == a.stack[i]
}

/// What an evaluation outside of a call's own frame handling keeps as well: the
/// base of the innermost frame, the current scope, and the heights of the stack
/// and of the list of frames.
pub open spec fn carried(a: EnvModel, b: EnvModel) -> bool {
    &&& within(a, b)
    &&& b.stack_frame_base == a.stack_frame_base
    &&& b.namespace == a.namespace
    &&& b.stack.len() == a.stack.len()
    &&& b.stack_frames.len() == a.stack_frames.len()
}

/// A node for `text` that has not been substituted in: the one the interner
/// keeps, where it keeps one, else a new one.
pub fn intern(env: &Environment, text: String) -> (r: Expression)
    ensures
        r@ == Form::Text(text@, false),
{
    let mut i: usize = 0;
    while i < env.interner.len()
        invariant
            i <= env.interner.len(),
        decreases env.interner.len() - i,
    {
        match env.interner[i].get() {
            ExpEnum::String(kept, done) => {
                if !*done && *kept == text {
                    return env.interner[i].dup();
                }
            },
            _ => {},
        }
        i += 1;
    }
    Expression::make_string(text)
}

} // verus!
