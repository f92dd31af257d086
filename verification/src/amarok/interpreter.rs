use crate::amarok::errors::RuntimeError;
use crate::amarok::semantics::{
    assign, bind, call, enter, evaluate, evaluate_all, execute, execute_all, exhausted, exit,
    joined, left, read, repeat, run, stray_return, undefined_function, undefined_variable,
    with_scopes, wrong_arity, Failure, Flow, FunctionModel, Ran, Scope, State,
};
use crate::amarok::span::{Span, Spanned};
use crate::amarok::syntax::{
    copy_names, copy_statements, expression_model, expression_models, name_texts,
    statement_model, statement_models, Expression, PlacedExpression, PlacedStatement, Program,
    Statement,
};
use crate::amarok::value::{evaluate_binary, format_value, is_truthy, Value, ValueModel};
use crate::text::push_decimal;
use vstd::prelude::*;
use vstd::string::StringExecFns;

verus! {

/// A variable of a scope.
pub struct Binding {
    pub name: String,
    pub value: Value,
}

/// A function that a program has defined.
pub struct Function {
    pub name: String,
    pub parameters: Vec<String>,
    pub body: Vec<Spanned<Statement>>,
}

/// How a statement ends: the next one runs, or the function returns.
#[derive(Debug, PartialEq, Eq)]
pub enum ControlFlow {
    Continue,
    Return(Value),
}

impl View for ControlFlow {
    type V = Flow;

    open spec fn view(&self) -> Flow {
        match self {
            ControlFlow::Continue => Flow::Continue,
            ControlFlow::Return(value) => Flow::Return(value@),
        }
    }
}

/// The variables of a scope, by name. Of two bindings of one name the
/// later one counts.
pub open spec fn scope_model(bindings: Seq<Binding>) -> Scope
    decreases bindings.len(),
{
    if bindings.len() == 0 {
        Map::empty()
    } else {
        scope_model(bindings.drop_last()).insert(bindings.last().name@, bindings.last().value@)
    }
}

/// The scopes, each by its model.
pub open spec fn scope_models(scopes: Seq<Vec<Binding>>) -> Seq<Scope> {
    Seq::new(scopes.len(), |i: int| scope_model(scopes[i]@))
}

/// The functions, by name. Of two functions of one name the later one
/// counts.
pub open spec fn function_models(functions: Seq<Function>) -> Map<Seq<char>, FunctionModel>
    decreases functions.len(),
{
    if functions.len() == 0 {
        Map::empty()
    } else {
        function_models(functions.drop_last()).insert(
            functions.last().name@,
            function_model(functions.last()),
        )
    }
}

/// The texts of the lines printed.
pub open spec fn line_texts(lines: Seq<String>) -> Seq<Seq<char>> {
    Seq::new(lines.len(), |i: int| lines[i]@)
}

/// The models of a list of values, one for one.
pub open spec fn value_models(values: Seq<Value>) -> Seq<ValueModel> {
    Seq::new(values.len(), |i: int| values[i]@)
}

/// Whether an executable error is the given failure.
pub open spec fn reports(error: RuntimeError, failure: Failure) -> bool {
    error.message@ == failure.message && error.span == failure.span
}

/// Whether an executable result is the given one.
pub open spec fn value_agrees(result: Result<Value, RuntimeError>, outcome: Result<ValueModel, Failure>) -> bool {
    match outcome {
        Ok(model) => result matches Ok(value) && value@ == model,
        Err(failure) => result matches Err(error) && reports(error, failure),
    }
}

/// Whether an executable result is the given one.
pub open spec fn values_agree(
    result: Result<Vec<Value>, RuntimeError>,
    outcome: Result<Seq<ValueModel>, Failure>,
) -> bool {
    match outcome {
        Ok(models) => result matches Ok(values) && value_models(values@) == models,
        Err(failure) => result matches Err(error) && reports(error, failure),
    }
}

/// Whether an executable result is the given one.
pub open spec fn flow_agrees(result: Result<ControlFlow, RuntimeError>, outcome: Result<Flow, Failure>) -> bool {
    match outcome {
        Ok(model) => result matches Ok(flow) && flow@ == model,
        Err(failure) => result matches Err(error) && reports(error, failure),
    }
}

/// Whether an executable result is the given one.
pub open spec fn unit_agrees(result: Result<(), RuntimeError>, outcome: Result<(), Failure>) -> bool {
    match outcome {
        Ok(_) => result is Ok,
        Err(failure) => result matches Err(error) && reports(error, failure),
    }
}

/// A binding at the end of a scope counts for its name.
proof fn lemma_scope_push(bindings: Seq<Binding>, binding: Binding)
    ensures
        scope_model(bindings.push(binding)) == scope_model(bindings).insert(
            binding.name@,
            binding.value@,
        ),
{
    assert(bindings.push(binding).drop_last() =~= bindings);
}

/// Whether no binding from `from` on is of `name`.
pub open spec fn unbound_from(bindings: Seq<Binding>, from: int, name: Seq<char>) -> bool {
    forall|j: int| from <= j < bindings.len() ==> (#[trigger] bindings[j]).name@ != name
}

/// The last binding of a name gives the name its value.
proof fn lemma_scope_found(bindings: Seq<Binding>, at: int, name: Seq<char>)
    requires
        0 <= at < bindings.len(),
        bindings[at].name@ == name,
        unbound_from(bindings, at + 1, name),
    ensures
        scope_model(bindings).contains_key(name),
        scope_model(bindings)[name] == bindings[at].value@,
    decreases bindings.len(),
{
    if at < bindings.len() - 1 {
        let before = bindings.drop_last();
        assert(bindings[bindings.len() - 1].name@ != name);
        assert forall|j: int| at + 1 <= j < before.len() implies (#[trigger] before[j]).name@
            != name by {
            assert(bindings[j].name@ != name);
        }
        lemma_scope_found(before, at, name);
    }
}

/// A name without a binding has no value.
proof fn lemma_scope_absent(bindings: Seq<Binding>, name: Seq<char>)
    requires
        unbound_from(bindings, 0, name),
    ensures
        !scope_model(bindings).contains_key(name),
    decreases bindings.len(),
{
    if bindings.len() > 0 {
        let before = bindings.drop_last();
        assert(bindings[bindings.len() - 1].name@ != name);
        assert forall|j: int| 0 <= j < before.len() implies (#[trigger] before[j]).name@ != name by {
            assert(bindings[j].name@ != name);
        }
        lemma_scope_absent(before, name);
    }
}

/// A new value for the last binding of a name is a new value for the name.
proof fn lemma_scope_update(bindings: Seq<Binding>, at: int, binding: Binding)
    requires
        0 <= at < bindings.len(),
        bindings[at].name@ == binding.name@,
        unbound_from(bindings, at + 1, binding.name@),
    ensures
        scope_model(bindings.update(at, binding)) == scope_model(bindings).insert(
            binding.name@,
            binding.value@,
        ),
    decreases bindings.len(),
{
    let updated = bindings.update(at, binding);
    if at == bindings.len() - 1 {
        assert(updated.drop_last() =~= bindings.drop_last());
        assert(scope_model(updated) =~= scope_model(bindings).insert(binding.name@, binding.value@));
    } else {
        let before = bindings.drop_last();
        assert(updated.drop_last() =~= before.update(at, binding));
        assert forall|j: int| at + 1 <= j < before.len() implies (#[trigger] before[j]).name@
            != binding.name@ by {
            assert(bindings[j].name@ != binding.name@);
        }
        lemma_scope_update(before, at, binding);
        assert(bindings[bindings.len() - 1].name@ != binding.name@);
        assert(scope_model(updated) =~= scope_model(bindings).insert(binding.name@, binding.value@));
    }
}

/// Whether no function from `from` on is of `name`.
pub open spec fn undefined_from(functions: Seq<Function>, from: int, name: Seq<char>) -> bool {
    forall|j: int| from <= j < functions.len() ==> (#[trigger] functions[j]).name@ != name
}

/// The model of one function.
pub open spec fn function_model(function: Function) -> FunctionModel {
    FunctionModel {
        parameters: name_texts(function.parameters@),
        body: statement_models(function.body@),
    }
}

/// The last function of a name is the function of the name.
proof fn lemma_function_found(functions: Seq<Function>, at: int, name: Seq<char>)
    requires
        0 <= at < functions.len(),
        functions[at].name@ == name,
        undefined_from(functions, at + 1, name),
    ensures
        function_models(functions).contains_key(name),
        function_models(functions)[name] == function_model(functions[at]),
    decreases functions.len(),
{
    if at < functions.len() - 1 {
        let before = functions.drop_last();
        assert(functions[functions.len() - 1].name@ != name);
        assert forall|j: int| at + 1 <= j < before.len() implies (#[trigger] before[j]).name@
            != name by {
            assert(functions[j].name@ != name);
        }
        lemma_function_found(before, at, name);
    }
}

/// A name without a function has none.
proof fn lemma_function_absent(functions: Seq<Function>, name: Seq<char>)
    requires
        undefined_from(functions, 0, name),
    ensures
        !function_models(functions).contains_key(name),
    decreases functions.len(),
{
    if functions.len() > 0 {
        let before = functions.drop_last();
        assert(functions[functions.len() - 1].name@ != name);
        assert forall|j: int| 0 <= j < before.len() implies (#[trigger] before[j]).name@ != name by {
            assert(functions[j].name@ != name);
        }
        lemma_function_absent(before, name);
    }
}


/// `ran`, after `spent` steps that were taken ahead of it.
pub open spec fn later<T>(spent: nat, ran: Ran<T>) -> Ran<T> {
    Ran { state: ran.state, result: ran.result, cost: spent + ran.cost }
}

/// `ran`, after `spent` steps in which `values` were found.
pub open spec fn after_values(
    values: Seq<ValueModel>,
    spent: nat,
    ran: Ran<Seq<ValueModel>>,
) -> Ran<Seq<ValueModel>> {
    Ran {
        state: ran.state,
        result: match ran.result {
            Ok(rest) => Ok(values + rest),
            Err(failure) => Err(failure),
        },
        cost: spent + ran.cost,
    }
}

/// The state in which an interpreter starts: one empty scope, no function,
/// no output.
pub open spec fn initial_state() -> State {
    State { scopes: seq![Map::empty()], functions: Map::empty(), output: Seq::empty() }
}

/// The slot of the last binding of `name` in a scope, if there is one.
fn find_binding(scope: &Vec<Binding>, name: &String) -> (found: Option<usize>)
    ensures
        match found {
            Some(at) => at < scope@.len() && scope@[at as int].name@ == name@ && unbound_from(
                scope@,
                at + 1,
                name@,
            ),
            None => unbound_from(scope@, 0, name@),
        },
{
    let mut index: usize = scope.len();
    while index > 0
        invariant
            index <= scope.len(),
            unbound_from(scope@, index as int, name@),
        decreases index,
    {
        index -= 1;
        if scope[index].name == *name {
            return Some(index);
        }
    }
    None
}

/// Whether `text` spells `literal`.
fn spells(text: &String, literal: &str) -> (yes: bool)
    ensures
        yes == (text@ == literal@),
{
    *text == String::from_str(literal)
}

/// An interpreter of Amarok programs. It keeps the variables, the
/// functions and the output from one program to the next, and a budget of
/// steps: every expression evaluated, every statement executed, every call
/// and every round of a loop takes one step, and a program that has none
/// left stops with an error.
///
/// Variables and functions are looked up by name in vectors, not in hash
/// maps: of a map keyed by `String` Verus proves nothing unless the hashing
/// of strings is taken on trust.
pub struct Interpreter {
    scopes: Vec<Vec<Binding>>,
    functions: Vec<Function>,
    output: Vec<String>,
    budget: u64,
}

impl View for Interpreter {
    type V = State;

    closed spec fn view(&self) -> State {
        State {
            scopes: scope_models(self.scopes@),
            functions: function_models(self.functions@),
            output: line_texts(self.output@),
        }
    }
}

impl Interpreter {
    /// The number of steps that the interpreter may still take.
    pub closed spec fn steps(&self) -> nat {
        self.budget as nat
    }

    /// An interpreter that has run nothing yet, with as many steps as the
    /// machine can count.
    pub fn new() -> (interpreter: Self)
        ensures
            interpreter@ == initial_state(),
            interpreter.steps() == u64::MAX,
    {
        Interpreter::with_budget(u64::MAX)
    }

    /// An interpreter that has run nothing yet, with `budget` steps.
    pub fn with_budget(budget: u64) -> (interpreter: Self)
        ensures
            interpreter@ == initial_state(),
            interpreter.steps() == budget,
    {
        let mut scopes: Vec<Vec<Binding>> = Vec::new();
        scopes.push(Vec::new());
        let interpreter = Interpreter {
            scopes,
            functions: Vec::new(),
            output: Vec::new(),
            budget,
        };
        assert(interpreter@.scopes =~= seq![Map::empty()]);
        assert(interpreter@.output =~= Seq::empty());
        interpreter
    }

    /// The lines printed so far.
    pub fn output_lines(&self) -> (lines: &Vec<String>)
        ensures
            line_texts(lines@) == self@.output,
    {
        &self.output
    }

    /// Runs a program. What it defines and prints stays with the
    /// interpreter, also where it fails.
    pub fn run_program(&mut self, program: &Program) -> (result: Result<(), RuntimeError>)
        ensures
            final(self)@ == run(old(self)@, program@, old(self).steps()).state,
            final(self).steps() == old(self).steps() - run(
                old(self)@,
                program@,
                old(self).steps(),
            ).cost,
            unit_agrees(result, run(old(self)@, program@, old(self).steps()).result),
    {
        match self.execute_statement_list(&program.statements) {
            Ok(ControlFlow::Continue) => Ok(()),
            Ok(ControlFlow::Return(_)) => Err(
                RuntimeError::new(String::from_str("Return outside of function.")),
            ),
            Err(error) => Err(error),
        }
    }

    /// Takes one step, if there is one left.
    fn spend(&mut self) -> (result: Result<(), RuntimeError>)
        ensures
            final(self)@ == old(self)@,
            if old(self).steps() == 0 {
                final(self).steps() == 0 && (result matches Err(error) && reports(error, exhausted()))
            } else {
                final(self).steps() == old(self).steps() - 1 && result is Ok
            },
    {
        if self.budget == 0 {
            return Err(RuntimeError::new(String::from_str("Step limit exceeded.")));
        }
        self.budget -= 1;
        Ok(())
    }

    /// Opens a new innermost scope.
    fn enter_scope(&mut self)
        ensures
            final(self)@ == with_scopes(old(self)@, enter(old(self)@.scopes)),
            final(self).steps() == old(self).steps(),
    {
        self.scopes.push(Vec::new());
        assert(self@.scopes =~= enter(old(self)@.scopes));
    }

    /// Closes the innermost scope. There is always one scope left.
    fn exit_scope(&mut self)
        ensures
            final(self)@ == with_scopes(old(self)@, exit(old(self)@.scopes)),
            final(self).steps() == old(self).steps(),
    {
        let _ = self.scopes.pop();
        if self.scopes.len() == 0 {
            self.scopes.push(Vec::new());
        }
        assert(self@.scopes =~= exit(old(self)@.scopes));
    }

    /// Gives a variable of the innermost scope a value.
    fn assign_variable(&mut self, name: &String, value: Value)
        ensures
            final(self)@ == with_scopes(old(self)@, assign(old(self)@.scopes, name@, value@)),
            final(self).steps() == old(self).steps(),
    {
        match self.scopes.pop() {
            Some(scope) => {
                let ghost before = scope@;
                let mut scope = scope;
                let binding = Binding { name: name.clone(), value };
                match find_binding(&scope, name) {
                    Some(at) => {
                        proof {
                            lemma_scope_update(before, at as int, binding);
                        }
                        scope[at] = binding;
                    },
                    None => {
                        proof {
                            lemma_scope_push(before, binding);
                        }
                        scope.push(binding);
                    },
                }
                self.scopes.push(scope);
                assert(self@.scopes =~= assign(old(self)@.scopes, name@, value@));
            },
            None => {
                assert(self@.scopes =~= old(self)@.scopes);
            },
        }
    }

    /// The value of a variable: that in the innermost scope that holds it.
    fn read_variable(&self, name: &String, span: Span) -> (result: Result<Value, RuntimeError>)
        ensures
            value_agrees(
                result,
                match read(self@.scopes, name@) {
                    Some(value) => Ok(value),
                    None => Err(undefined_variable(name@, span)),
                },
            ),
    {
        let ghost models = self@.scopes;
        let mut index: usize = self.scopes.len();
        assert(models.take(index as int) =~= models);
        while index > 0
            invariant
                index <= self.scopes.len(),
                models == self@.scopes,
                read(models, name@) == read(models.take(index as int), name@),
            decreases index,
        {
            index -= 1;
            proof {
                assert(models.take(index as int + 1).drop_last() =~= models.take(index as int));
                assert(models.take(index as int + 1).last() == scope_model(
                    self.scopes@[index as int]@,
                ));
            }
            match find_binding(&self.scopes[index], name) {
                Some(at) => {
                    proof {
                        lemma_scope_found(self.scopes@[index as int]@, at as int, name@);
                    }
                    return Ok(self.scopes[index][at].value.clone());
                },
                None => {
                    proof {
                        lemma_scope_absent(self.scopes@[index as int]@, name@);
                    }
                },
            }
        }
        let mut message = String::from_str("Undefined variable: ");
        message.append(name.as_str());
        Err(RuntimeError::new(message).with_span(span))
    }

    /// The slot of the last function of `name`, if there is one.
    fn find_function(&self, name: &String) -> (found: Option<usize>)
        ensures
            match found {
                Some(at) => at < self.functions@.len() && self@.functions.contains_key(name@)
                    && self@.functions[name@] == function_model(self.functions@[at as int]),
                None => !self@.functions.contains_key(name@),
            },
    {
        let mut index: usize = self.functions.len();
        while index > 0
            invariant
                index <= self.functions.len(),
                undefined_from(self.functions@, index as int, name@),
            decreases index,
        {
            index -= 1;
            if self.functions[index].name == *name {
                proof {
                    lemma_function_found(self.functions@, index as int, name@);
                }
                return Some(index);
            }
        }
        proof {
            lemma_function_absent(self.functions@, name@);
        }
        None
    }

    /// The built-in `print`: adds one line to the output, the values with
    /// one space between two.
    fn builtin_print(&mut self, arguments: &Vec<Value>)
        ensures
            final(self)@ == (State {
                scopes: old(self)@.scopes,
                functions: old(self)@.functions,
                output: old(self)@.output.push(joined(value_models(arguments@))),
            }),
            final(self).steps() == old(self).steps(),
    {
        let mut line = String::new();
        let mut index: usize = 0;
        let ghost values = value_models(arguments@);
        assert(values.take(0) =~= Seq::<ValueModel>::empty());
        while index < arguments.len()
            invariant
                index <= arguments.len(),
                values == value_models(arguments@),
                line@ == joined(values.take(index as int)),
            decreases arguments.len() - index,
        {
            if index > 0 {
                line.append(" ");
            }
            line.append(format_value(&arguments[index]).as_str());
            proof {
                let taken = values.take(index as int + 1);
                assert(taken.drop_last() =~= values.take(index as int));
                assert(taken.last() == arguments@[index as int]@);
                if index == 0 {
                    assert(line@ =~= joined(taken));
                } else {
                    assert(line@ =~= joined(taken));
                }
            }
            index += 1;
        }
        assert(values.take(index as int) =~= values);
        self.output.push(line);
        assert(self@.output =~= old(self)@.output.push(joined(values)));
    }

    /// Calls the built-in or the function of the program of the given name.
    fn call_function(&mut self, name: &String, arguments: Vec<Value>, call_span: Span) -> (result:
        Result<Value, RuntimeError>)
        ensures
            final(self)@ == call(
                old(self)@,
                name@,
                value_models(arguments@),
                call_span,
                old(self).steps(),
            ).state,
            call(old(self)@, name@, value_models(arguments@), call_span, old(self).steps()).cost
                <= old(self).steps(),
            final(self).steps() == old(self).steps() - call(
                old(self)@,
                name@,
                value_models(arguments@),
                call_span,
                old(self).steps(),
            ).cost,
            value_agrees(
                result,
                call(
                    old(self)@,
                    name@,
                    value_models(arguments@),
                    call_span,
                    old(self).steps(),
                ).result,
            ),
        decreases old(self).steps(),
    {
        match self.spend() {
            Ok(_) => {},
            Err(error) => {
                return Err(error);
            },
        }
        if spells(name, "print") {
            self.builtin_print(&arguments);
            return Ok(Value::Null);
        }
        let at = match self.find_function(name) {
            Some(at) => at,
            None => {
                let mut message = String::from_str("Undefined function: ");
                message.append(name.as_str());
                return Err(RuntimeError::new(message).with_span(call_span));
            },
        };
        let parameters = copy_names(&self.functions[at].parameters);
        let body = copy_statements(&self.functions[at].body);
        let ghost function = old(self)@.functions[name@];
        let ghost values = value_models(arguments@);
        proof {
            assert(name_texts(parameters@).len() == parameters@.len());
            assert(values.len() == arguments@.len());
        }
        if arguments.len() != parameters.len() {
            let mut message = String::from_str("Function ");
            message.append(name.as_str());
            message.append(" expected ");
            push_decimal(&mut message, parameters.len() as u64);
            message.append(" arguments, got ");
            push_decimal(&mut message, arguments.len() as u64);
            return Err(RuntimeError::new(message).with_span(call_span));
        }
        self.enter_scope();
        let ghost entered = self@;
        let mut index: usize = 0;
        while index < parameters.len()
            invariant
                index <= parameters.len(),
                parameters.len() == arguments.len(),
                values == value_models(arguments@),
                self.steps() == old(self).steps() - 1,
                self@ == with_scopes(
                    entered,
                    bind(entered.scopes, name_texts(parameters@), values, index as int),
                ),
            decreases parameters.len() - index,
        {
            self.assign_variable(&parameters[index], arguments[index].clone());
            index += 1;
        }
        let result = self.execute_statement_list(&body);
        self.exit_scope();
        match result {
            Ok(ControlFlow::Continue) => Ok(Value::Null),
            Ok(ControlFlow::Return(value)) => Ok(value),
            Err(error) => Err(error),
        }
    }

    /// Evaluates expressions in order and gives their values.
    fn evaluate_arguments(&mut self, arguments: &Vec<Spanned<Expression>>) -> (result: Result<
        Vec<Value>,
        RuntimeError,
    >)
        ensures
            final(self)@ == evaluate_all(
                old(self)@,
                expression_models(arguments@),
                0,
                old(self).steps(),
            ).state,
            evaluate_all(old(self)@, expression_models(arguments@), 0, old(self).steps()).cost
                <= old(self).steps(),
            final(self).steps() == old(self).steps() - evaluate_all(
                old(self)@,
                expression_models(arguments@),
                0,
                old(self).steps(),
            ).cost,
            values_agree(
                result,
                evaluate_all(old(self)@, expression_models(arguments@), 0, old(self).steps()).result,
            ),
        decreases old(self).steps(),
    {
        let ghost models = expression_models(arguments@);
        let ghost total = evaluate_all(old(self)@, models, 0, old(self).steps());
        let mut values: Vec<Value> = Vec::new();
        let mut index: usize = 0;
        assert(value_models(values@) =~= Seq::<ValueModel>::empty());
        assert(Seq::<ValueModel>::empty() + evaluate_all(
            old(self)@,
            models,
            0,
            old(self).steps(),
        ).result->Ok_0 =~= evaluate_all(old(self)@, models, 0, old(self).steps()).result->Ok_0);
        while index < arguments.len()
            invariant
                index <= arguments.len(),
                models == expression_models(arguments@),
                total == evaluate_all(old(self)@, models, 0, old(self).steps()),
                self.steps() <= old(self).steps(),
                total == after_values(
                    value_models(values@),
                    (old(self).steps() - self.steps()) as nat,
                    evaluate_all(self@, models, index as int, self.steps()),
                ),
            decreases arguments.len() - index,
        {
            let ghost found = value_models(values@);
            let ghost here = self@;
            let ghost budget = self.steps();
            match self.spend() {
                Ok(_) => {},
                Err(error) => {
                    return Err(error);
                },
            }
            let value = match self.evaluate_expression(&arguments[index]) {
                Ok(value) => value,
                Err(error) => {
                    return Err(error);
                },
            };
            values.push(value);
            index += 1;
            proof {
                let first = evaluate(here, models[index as int - 1], (budget - 1) as nat);
                let rest = evaluate_all(self@, models, index as int, self.steps());
                assert(value_models(values@) =~= found.push(first.result->Ok_0));
                if let Ok(more) = rest.result {
                    assert(found + (seq![first.result->Ok_0] + more) =~= found.push(
                        first.result->Ok_0,
                    ) + more);
                }
            }
        }
        proof {
            assert(value_models(values@) + Seq::<ValueModel>::empty() =~= value_models(values@));
        }
        Ok(values)
    }

    /// Evaluates an expression.
    fn evaluate_expression(&mut self, expression: &Spanned<Expression>) -> (result: Result<
        Value,
        RuntimeError,
    >)
        ensures
            final(self)@ == evaluate(old(self)@, expression_model(*expression), old(self).steps()).state,
            evaluate(old(self)@, expression_model(*expression), old(self).steps()).cost <= old(
                self,
            ).steps(),
            final(self).steps() == old(self).steps() - evaluate(
                old(self)@,
                expression_model(*expression),
                old(self).steps(),
            ).cost,
            value_agrees(
                result,
                evaluate(old(self)@, expression_model(*expression), old(self).steps()).result,
            ),
        decreases old(self).steps(),
    {
        match self.spend() {
            Ok(_) => {},
            Err(error) => {
                return Err(error);
            },
        }
        match &expression.value {
            Expression::Integer(value) => Ok(Value::Integer(*value)),
            Expression::String(value) => Ok(Value::String(value.clone())),
            Expression::Variable(name) => self.read_variable(name, expression.span),
            Expression::Binary { left, operator, right } => {
                let left_value = match self.evaluate_expression(left) {
                    Ok(value) => value,
                    Err(error) => {
                        return Err(error);
                    },
                };
                let right_value = match self.evaluate_expression(right) {
                    Ok(value) => value,
                    Err(error) => {
                        return Err(error);
                    },
                };
                evaluate_binary(*operator, left_value, right_value, expression.span)
            },
            Expression::FunctionCall { name, arguments } => {
                proof {
                    assert(expression_model(*expression).value->Call_arguments
                        =~= expression_models(arguments@));
                }
                let evaluated_arguments = match self.evaluate_arguments(arguments) {
                    Ok(values) => values,
                    Err(error) => {
                        return Err(error);
                    },
                };
                self.call_function(name, evaluated_arguments, expression.span)
            },
        }
    }

    /// Executes statements in order, up to the first that fails or
    /// returns.
    fn execute_statement_list(&mut self, statements: &Vec<Spanned<Statement>>) -> (result: Result<
        ControlFlow,
        RuntimeError,
    >)
        ensures
            final(self)@ == execute_all(
                old(self)@,
                statement_models(statements@),
                0,
                old(self).steps(),
            ).state,
            execute_all(old(self)@, statement_models(statements@), 0, old(self).steps()).cost
                <= old(self).steps(),
            final(self).steps() == old(self).steps() - execute_all(
                old(self)@,
                statement_models(statements@),
                0,
                old(self).steps(),
            ).cost,
            flow_agrees(
                result,
                execute_all(old(self)@, statement_models(statements@), 0, old(self).steps()).result,
            ),
        decreases old(self).steps(),
    {
        let ghost models = statement_models(statements@);
        let ghost total = execute_all(old(self)@, models, 0, old(self).steps());
        let mut index: usize = 0;
        while index < statements.len()
            invariant
                index <= statements.len(),
                models == statement_models(statements@),
                total == execute_all(old(self)@, models, 0, old(self).steps()),
                self.steps() <= old(self).steps(),
                total == later(
                    (old(self).steps() - self.steps()) as nat,
                    execute_all(self@, models, index as int, self.steps()),
                ),
            decreases statements.len() - index,
        {
            match self.spend() {
                Ok(_) => {},
                Err(error) => {
                    return Err(error);
                },
            }
            match self.execute_statement(&statements[index]) {
                Ok(ControlFlow::Continue) => {},
                Ok(ControlFlow::Return(value)) => {
                    return Ok(ControlFlow::Return(value));
                },
                Err(error) => {
                    return Err(error);
                },
            }
            index += 1;
        }
        Ok(ControlFlow::Continue)
    }

    /// Executes one statement.
    fn execute_statement(&mut self, statement: &Spanned<Statement>) -> (result: Result<
        ControlFlow,
        RuntimeError,
    >)
        ensures
            final(self)@ == execute(old(self)@, statement_model(*statement), old(self).steps()).state,
            execute(old(self)@, statement_model(*statement), old(self).steps()).cost <= old(
                self,
            ).steps(),
            final(self).steps() == old(self).steps() - execute(
                old(self)@,
                statement_model(*statement),
                old(self).steps(),
            ).cost,
            flow_agrees(
                result,
                execute(old(self)@, statement_model(*statement), old(self).steps()).result,
            ),
        decreases old(self).steps(),
    {
        match self.spend() {
            Ok(_) => {},
            Err(error) => {
                return Err(error);
            },
        }
        match &statement.value {
            Statement::Assignment { name, value } => {
                let evaluated = match self.evaluate_expression(value) {
                    Ok(value) => value,
                    Err(error) => {
                        return Err(error);
                    },
                };
                self.assign_variable(name, evaluated);
                Ok(ControlFlow::Continue)
            },
            Statement::Expression { expression } => {
                match self.evaluate_expression(expression) {
                    Ok(_) => Ok(ControlFlow::Continue),
                    Err(error) => Err(error),
                }
            },
            Statement::Block { statements } => {
                proof {
                    assert(statement_model(*statement).value->Block_statements
                        =~= statement_models(statements@));
                }
                self.enter_scope();
                let result = self.execute_statement_list(statements);
                self.exit_scope();
                result
            },
            Statement::If { condition, then_branch, else_branch } => {
                proof {
                    assert(statement_model(*statement).value->then_branch =~= statement_models(
                        then_branch@,
                    ));
                    assert(statement_model(*statement).value->else_branch =~= statement_models(
                        else_branch@,
                    ));
                }
                let condition_value = match self.evaluate_expression(condition) {
                    Ok(value) => value,
                    Err(error) => {
                        return Err(error);
                    },
                };
                if is_truthy(&condition_value) {
                    self.execute_statement_list(then_branch)
                } else {
                    self.execute_statement_list(else_branch)
                }
            },
            Statement::While { condition, body } => {
                proof {
                    assert(statement_model(*statement).value->While_body =~= statement_models(
                        body@,
                    ));
                }
                let ghost start = self@;
                let ghost budget = self.steps();
                let ghost test = expression_model(*condition);
                let ghost rounds = statement_models(body@);
                let ghost total = execute(old(self)@, statement_model(*statement), old(self).steps());
                assert(total == later(1, repeat(start, test, rounds, budget)));
                loop
                    invariant_except_break
                        repeat(start, test, rounds, budget) == later(
                            (budget - self.steps()) as nat,
                            repeat(self@, test, rounds, self.steps()),
                        ),
                    invariant
                        total == execute(
                            old(self)@,
                            statement_model(*statement),
                            old(self).steps(),
                        ),
                        total == later(1, repeat(start, test, rounds, budget)),
                        budget == old(self).steps() - 1,
                        self.steps() <= budget,
                        test == expression_model(*condition),
                        rounds == statement_models(body@),
                    ensures
                        repeat(start, test, rounds, budget).state == self@,
                        repeat(start, test, rounds, budget).cost == budget - self.steps(),
                        repeat(start, test, rounds, budget).result == Ok::<Flow, Failure>(
                            Flow::Continue,
                        ),
                    decreases self.steps(),
                {
                    match self.spend() {
                        Ok(_) => {},
                        Err(error) => {
                            return Err(error);
                        },
                    }
                    let condition_value = match self.evaluate_expression(condition) {
                        Ok(value) => value,
                        Err(error) => {
                            return Err(error);
                        },
                    };
                    if !is_truthy(&condition_value) {
                        break ;
                    }
                    match self.execute_statement_list(body) {
                        Ok(ControlFlow::Continue) => {},
                        Ok(ControlFlow::Return(value)) => {
                            return Ok(ControlFlow::Return(value));
                        },
                        Err(error) => {
                            return Err(error);
                        },
                    }
                }
                Ok(ControlFlow::Continue)
            },
            Statement::FunctionDefinition { name, parameters, body } => {
                proof {
                    assert(statement_model(*statement).value->FunctionDefinition_body
                        =~= statement_models(body@));
                }
                let function = Function {
                    name: name.clone(),
                    parameters: copy_names(parameters),
                    body: copy_statements(body),
                };
                proof {
                    assert(self.functions@.push(function).drop_last() =~= self.functions@);
                }
                self.functions.push(function);
                Ok(ControlFlow::Continue)
            },
            Statement::Return { value } => {
                match value {
                    Some(expression) => match self.evaluate_expression(expression) {
                        Ok(value) => Ok(ControlFlow::Return(value)),
                        Err(error) => Err(error),
                    },
                    None => Ok(ControlFlow::Return(Value::Null)),
                }
            },
        }
    }
}

} // verus!
