//! One run of a tool: its arguments, and the command line made from a
//! template by filling in `${name}` placeholders.

use vstd::prelude::*;
use vstd::string::StringExecFns;
use crate::text::signed_decimal;
use crate::text::signed_decimal_string;

verus! {

/// The value of a named parameter.
#[derive(Debug)]
pub enum ParameterValue {
    NoValue,
    IntegerValue(i64),
    StringValue(String),
}

/// The text of a parameter value: a number in decimal, a string between
/// double quotes, `NOVALUE` for none.
pub open spec fn value_text(v: ParameterValue) -> Seq<char> {
    match v {
        ParameterValue::NoValue => "NOVALUE"@,
        ParameterValue::IntegerValue(i) => signed_decimal(i as int),
        ParameterValue::StringValue(s) => seq!['"'] + s@ + seq!['"'],
    }
}

impl ParameterValue {
    /// A copy of the value.
    pub fn duplicate(&self) -> (v: ParameterValue)
        ensures
            v == *self,
    {
        match self {
            ParameterValue::NoValue => ParameterValue::NoValue,
            ParameterValue::IntegerValue(i) => ParameterValue::IntegerValue(*i),
            ParameterValue::StringValue(s) => ParameterValue::StringValue(s.clone()),
        }
    }

    /// Writes the value as text.
    pub fn to_text(&self) -> (s: String)
        ensures
            s@ == value_text(*self),
    {
        match self {
            ParameterValue::NoValue => String::from_str("NOVALUE"),
            ParameterValue::IntegerValue(i) => signed_decimal_string(*i),
            ParameterValue::StringValue(text) => {
                proof {
                    reveal_strlit("\"");
                    assert("\""@ =~= seq!['"']);
                }
                String::from_str("\"").concat(text.as_str()).concat("\"")
            },
        }
    }
}

/// A named parameter.
#[derive(Debug)]
pub struct Parameter {
    pub name: String,
    pub value: ParameterValue,
}

/// The value that a list of parameters gives a name: that of the last
/// parameter of that name.
pub open spec fn lookup(parameters: Seq<Parameter>, name: Seq<char>) -> Option<ParameterValue>
    decreases parameters.len(),
{
    if parameters.len() == 0 {
        None
    } else if parameters.last().name@ == name {
        Some(parameters.last().value)
    } else {
        lookup(parameters.drop_last(), name)
    }
}

/// Whether no two parameters of a list have the same name.
pub open spec fn names_unique(parameters: Seq<Parameter>) -> bool {
    forall|i: int, j: int|
        0 <= i < j < parameters.len() ==> (#[trigger] parameters[i]).name@ != (
        #[trigger] parameters[j]).name@
}

/// In a list where each name occurs once, a name has the value of the
/// parameter that carries it, and none where no parameter carries it.
pub proof fn lemma_lookup_unique(parameters: Seq<Parameter>, name: Seq<char>)
    requires
        names_unique(parameters),
    ensures
        forall|i: int|
            0 <= i < parameters.len() && (#[trigger] parameters[i]).name@ == name ==> lookup(
                parameters,
                name,
            ) == Some(parameters[i].value),
        (forall|i: int| 0 <= i < parameters.len() ==> (#[trigger] parameters[i]).name@ != name)
            ==> lookup(parameters, name) is None,
    decreases parameters.len(),
{
    if parameters.len() > 0 {
        let head = parameters.drop_last();
        assert(names_unique(head)) by {
            assert forall|i: int, j: int| 0 <= i < j < head.len() implies (#[trigger] head[i]).name@
                != (#[trigger] head[j]).name@ by {
                assert(parameters[i].name@ != parameters[j].name@);
            }
        }
        lemma_lookup_unique(head, name);
        assert forall|i: int|
            0 <= i < parameters.len() && (#[trigger] parameters[i]).name@ == name implies lookup(
            parameters,
            name,
        ) == Some(parameters[i].value) by {
            if i < parameters.len() - 1 {
                assert(head[i] == parameters[i]);
                assert(parameters[i].name@ != parameters[parameters.len() - 1].name@);
            }
        }
        if forall|i: int| 0 <= i < parameters.len() ==> (#[trigger] parameters[i]).name@ != name {
            assert forall|i: int| 0 <= i < head.len() implies (#[trigger] head[i]).name@
                != name by {
                assert(parameters[i].name@ != name);
            }
            assert(parameters[parameters.len() - 1].name@ != name);
        }
    }
}

/// The named parameters of a run: a map from names to values, kept as a list
/// in which each name occurs once.
#[derive(Debug)]
pub struct Parameters {
    pub list: Vec<Parameter>,
}

impl Parameters {
    /// The invariant: each name occurs once.
    pub open spec fn wf(&self) -> bool {
        names_unique(self.list@)
    }

    /// The value under a name, if there is one.
    pub open spec fn value_of(&self, name: Seq<char>) -> Option<ParameterValue> {
        lookup(self.list@, name)
    }

    /// No parameters.
    pub fn new() -> (p: Parameters)
        ensures
            p.wf(),
            p.list@.len() == 0,
            forall|name: Seq<char>| (#[trigger] p.value_of(name)) is None,
    {
        Parameters { list: Vec::new() }
    }

    /// Puts `value` under `name`, in the place of the value that stood there.
    pub fn insert(&mut self, name: String, value: ParameterValue)
        requires
            old(self).wf(),
        ensures
            final(self).wf(),
            forall|other: Seq<char>| #[trigger]
                final(self).value_of(other) == if other == name@ {
                    Some(value)
                } else {
                    old(self).value_of(other)
                },
    {
        let n = self.list.len();
        let mut i: usize = 0;
        while i < n
            invariant
                n == self.list@.len(),
                i <= n,
                old(self).wf(),
                self.list@ == old(self).list@,
                forall|j: int| 0 <= j < i ==> (#[trigger] self.list@[j]).name@ != name@,
            decreases n - i,
        {
            if self.list[i].name == name {
                self.list.set(i, Parameter { name, value });
                proof {
                    lemma_insert(old(self).list@, self.list@, i as int);
                }
                return ;
            }
            i = i + 1;
        }
        self.list.push(Parameter { name, value });
        proof {
            lemma_insert(old(self).list@, self.list@, n as int);
        }
    }

    /// Looks up the value under `name`.
    pub fn get(&self, name: &str) -> (v: Option<&ParameterValue>)
        ensures
            match v {
                Some(value) => self.value_of(name@) == Some(*value),
                None => self.value_of(name@) is None,
            },
    {
        let key = String::from_str(name);
        let mut i: usize = self.list.len();
        proof {
            assert(self.list@.take(i as int) =~= self.list@);
        }
        while i > 0
            invariant
                i <= self.list@.len(),
                key@ == name@,
                lookup(self.list@, name@) == lookup(self.list@.take(i as int), name@),
            decreases i,
        {
            let p = &self.list[i - 1];
            proof {
                assert(self.list@.take(i as int).last() == *p);
                assert(self.list@.take(i as int).drop_last() =~= self.list@.take(i - 1));
            }
            if p.name == key {
                return Some(&p.value);
            }
            i = i - 1;
        }
        None
    }

    /// A copy of the parameters.
    pub fn duplicate(&self) -> (copy: Parameters)
        ensures
            copy.list@ == self.list@,
    {
        Parameters { list: copy_parameters(&self.list) }
    }
}

/// Writing a parameter over the one of its name, or behind the others where
/// none has its name, keeps each name once and changes the value under that
/// name only.
proof fn lemma_insert(before: Seq<Parameter>, after: Seq<Parameter>, at: int)
    requires
        names_unique(before),
        0 <= at <= before.len(),
        at < before.len() ==> after.len() == before.len() && after[at].name@ == before[at].name@,
        at == before.len() ==> after.len() == before.len() + 1 && forall|j: int|
            0 <= j < before.len() ==> (#[trigger] before[j]).name@ != after[at].name@,
        forall|j: int| 0 <= j < before.len() && j != at ==> after[j] == before[j],
    ensures
        names_unique(after),
        forall|other: Seq<char>| #[trigger]
            lookup(after, other) == if other == after[at].name@ {
                Some(after[at].value)
            } else {
                lookup(before, other)
            },
{
    assert forall|i: int, j: int| 0 <= i < j < after.len() implies (#[trigger] after[i]).name@ != (
    #[trigger] after[j]).name@ by {
        if j < before.len() {
            assert(before[i].name@ != before[j].name@);
        } else {
            assert(before[i].name@ != after[at].name@);
        }
    }
    assert forall|other: Seq<char>| #[trigger]
        lookup(after, other) == if other == after[at].name@ {
            Some(after[at].value)
        } else {
            lookup(before, other)
        } by {
        lemma_lookup_unique(before, other);
        lemma_lookup_unique(after, other);
        if other == after[at].name@ {
        } else if exists|j: int| 0 <= j < before.len() && (#[trigger] before[j]).name@ == other {
            let j = choose|j: int| 0 <= j < before.len() && (#[trigger] before[j]).name@ == other;
            assert(j != at);
            assert(after[j] == before[j]);
            assert(after[j].name@ == other);
        } else {
            assert forall|j: int| 0 <= j < after.len() implies (#[trigger] after[j]).name@
                != other by {
                if j != at {
                    assert(before[j].name@ != other);
                }
            }
        }
    }
}

/// The input files as they stand on a command line: each after a tab and
/// between double quotes, with a blank between two of them.
pub open spec fn joined_inputs(input: Seq<String>) -> Seq<char>
    decreases input.len(),
{
    if input.len() == 0 {
        Seq::empty()
    } else if input.len() == 1 {
        seq!['\t', '"'] + input[0]@ + seq!['"']
    } else {
        joined_inputs(input.drop_last()) + seq![' '] + (seq!['\t', '"'] + input.last()@
            + seq!['"'])
    }
}

/// Where a placeholder that opens just before `t` closes: the index of the
/// first `}` in `t`, if no line ends before it.
pub open spec fn closing(t: Seq<char>) -> Option<int>
    decreases t.len(),
{
    if t.len() == 0 {
        None
    } else if t[0] == '}' {
        Some(0)
    } else if t[0] == '\n' {
        None
    } else {
        match closing(t.skip(1)) {
            Some(k) => Some(k + 1),
            None => None,
        }
    }
}

/// Calls `regex::Regex::new` on the placeholder expression `\$\{(.*?)\}` and
/// `Regex::replace_all` with a closure that hands the text between the braces
/// to `ToolRun::substitute`. Trusted: every placeholder, found from left to
/// right, is replaced by what `substitute` returns for its name, and the rest
/// of the text is kept. The expression is fixed by the precondition, so
/// compiling it cannot fail.
#[verifier::external_body]
fn fill_all(pattern: &str, text: &str, run: &ToolRun) -> (r: String)
    requires
        pattern@ == "\\$\\{(.*?)\\}"@,
    ensures
        r@ == run.filled(text@),
{
    regex::Regex::new(pattern).unwrap().replace_all(
        text,
        |c: &regex::Captures| run.substitute(c.get(1).map_or("", |m| m.as_str())),
    ).into_owned()
}

/// What a tool run asks for.
#[derive(Clone, Copy, Debug, PartialEq, Eq, Structural)]
pub enum ToolAction {
    /// No tool is named: the run is skipped.
    Skip,
    /// The tool `noop`: nothing is done.
    Noop,
    /// The tool `$asset`: the built-in asset tool.
    Asset,
    /// Any other tool: its command line is run.
    External,
}

/// What the built-in asset tool is asked to do.
#[derive(Clone, Copy, Debug, PartialEq, Eq, Structural)]
pub enum AssetCommand {
    /// No command is given.
    Missing,
    /// The command `dump`: the run is printed.
    Dump,
    /// Any other command.
    Unhandled,
}

/// One run of a tool.
#[derive(Debug)]
pub struct ToolRun {
    pub tool: String,
    pub command: String,
    pub output: String,
    pub input: Vec<String>,
    pub parameters: Parameters,
    pub cmd_line: String,
}

/// Copies a list of strings.
pub fn copy_strings(list: &Vec<String>) -> (copy: Vec<String>)
    ensures
        copy@ == list@,
{
    let mut copy: Vec<String> = Vec::new();
    let mut i: usize = 0;
    while i < list.len()
        invariant
            i <= list@.len(),
            copy@ == list@.take(i as int),
        decreases list@.len() - i,
    {
        copy.push(list[i].clone());
        assert(copy@ =~= list@.take(i + 1));
        i = i + 1;
    }
    assert(list@.take(list@.len() as int) =~= list@);
    copy
}

/// Copies a list of parameters.
pub fn copy_parameters(list: &Vec<Parameter>) -> (copy: Vec<Parameter>)
    ensures
        copy@ == list@,
{
    let mut copy: Vec<Parameter> = Vec::new();
    let mut i: usize = 0;
    while i < list.len()
        invariant
            i <= list@.len(),
            copy@ == list@.take(i as int),
        decreases list@.len() - i,
    {
        copy.push(Parameter { name: list[i].name.clone(), value: list[i].value.duplicate() });
        assert(copy@ =~= list@.take(i + 1));
        i = i + 1;
    }
    assert(list@.take(list@.len() as int) =~= list@);
    copy
}

impl ToolRun {
    /// A run with copies of the given arguments.
    pub fn new(
        tool: &str,
        command: &str,
        output: &str,
        input: &Vec<String>,
        parameters: &Parameters,
        cmd_line: &str,
    ) -> (run: ToolRun)
        ensures
            run.tool@ == tool@,
            run.command@ == command@,
            run.output@ == output@,
            run.input@ == input@,
            run.parameters.list@ == parameters.list@,
            run.cmd_line@ == cmd_line@,
    {
        ToolRun {
            tool: tool.to_owned(),
            command: command.to_owned(),
            output: output.to_owned(),
            input: copy_strings(input),
            parameters: parameters.duplicate(),
            cmd_line: cmd_line.to_owned(),
        }
    }

    /// What the run asks for, by the name of its tool.
    pub open spec fn spec_action(&self) -> ToolAction {
        if self.tool@ == ""@ {
            ToolAction::Skip
        } else if self.tool@ == "noop"@ {
            ToolAction::Noop
        } else if self.tool@ == "$asset"@ {
            ToolAction::Asset
        } else {
            ToolAction::External
        }
    }

    /// Decides what the run asks for.
    pub fn action(&self) -> (a: ToolAction)
        ensures
            a == self.spec_action(),
    {
        if self.tool == String::from_str("") {
            ToolAction::Skip
        } else if self.tool == String::from_str("noop") {
            ToolAction::Noop
        } else if self.tool == String::from_str("$asset") {
            ToolAction::Asset
        } else {
            ToolAction::External
        }
    }

    /// What the asset tool is asked to do, by the run's command.
    pub open spec fn spec_asset_command(&self) -> AssetCommand {
        if self.command@ == ""@ {
            AssetCommand::Missing
        } else if self.command@ == "dump"@ {
            AssetCommand::Dump
        } else {
            AssetCommand::Unhandled
        }
    }

    /// Decides what the asset tool is asked to do. Every command counts as
    /// done: the result is the number of files built, which is none.
    pub fn tool_asset(&self) -> (r: (AssetCommand, u32))
        ensures
            r.0 == self.spec_asset_command(),
            r.1 == 0,
    {
        if self.command == String::from_str("") {
            (AssetCommand::Missing, 0)
        } else if self.command == String::from_str("dump") {
            (AssetCommand::Dump, 0)
        } else {
            (AssetCommand::Unhandled, 0)
        }
    }

    /// The text that stands for the placeholder `name` on the command line.
    pub open spec fn substitution(&self, name: Seq<char>) -> Seq<char> {
        if name == ""@ {
            Seq::empty()
        } else if name == "tool"@ {
            self.tool@
        } else if name == "command"@ {
            self.command@
        } else if name == "output"@ {
            seq!['"'] + self.output@ + seq!['"']
        } else if name == "input"@ {
            joined_inputs(self.input@)
        } else {
            value_text(
                match self.parameters.value_of(name) {
                    Some(v) => v,
                    None => ParameterValue::NoValue,
                },
            )
        }
    }

    /// The text `s` with every placeholder filled in, from left to right. A
    /// placeholder is `${`, a name without `}` or line end in it, and `}`.
    pub open spec fn filled(&self, s: Seq<char>) -> Seq<char>
        decreases s.len(),
    {
        if s.len() == 0 {
            s
        } else if s.len() >= 2 && s[0] == '$' && s[1] == '{' && closing(s.skip(2)) is Some && 0
            <= closing(s.skip(2))->0 <= s.len() - 3 {
            let k = closing(s.skip(2))->0;
            self.substitution(s.subrange(2, 2 + k)) + self.filled(s.skip(k + 3))
        } else {
            seq![s[0]] + self.filled(s.skip(1))
        }
    }

    /// The command line of the run: its template with every placeholder
    /// filled in.
    pub open spec fn spec_command_line(&self) -> Seq<char> {
        self.filled(self.cmd_line@)
    }

    /// Looks up the parameter `name`.
    pub fn parameter(&self, name: &str) -> (v: Option<&ParameterValue>)
        ensures
            match v {
                Some(value) => self.parameters.value_of(name@) == Some(*value),
                None => self.parameters.value_of(name@) is None,
            },
    {
        self.parameters.get(name)
    }

    /// Writes the input files as they stand on a command line.
    pub fn input_text(&self) -> (s: String)
        ensures
            s@ == joined_inputs(self.input@),
    {
        proof {
            reveal_strlit("\t\"");
            reveal_strlit("\"");
            reveal_strlit(" ");
            assert("\t\""@ =~= seq!['\t', '"']);
            assert("\""@ =~= seq!['"']);
            assert(" "@ =~= seq![' ']);
        }
        let mut s = String::new();
        let mut i: usize = 0;
        while i < self.input.len()
            invariant
                i <= self.input@.len(),
                "\t\""@ == seq!['\t', '"'],
                "\""@ == seq!['"'],
                " "@ == seq![' '],
                s@ == joined_inputs(self.input@.take(i as int)),
            decreases self.input@.len() - i,
        {
            proof {
                assert(self.input@.take(i + 1).drop_last() =~= self.input@.take(i as int));
                assert(self.input@.take(i + 1).last() == self.input@[i as int]);
                assert(self.input@.take(i + 1)[0] == self.input@[0]);
            }
            let ghost before = s@;
            if i > 0 {
                s.append(" ");
            }
            s.append("\t\"");
            s.append(self.input[i].as_str());
            s.append("\"");
            proof {
                let item = seq!['\t', '"'] + self.input@[i as int]@ + seq!['"'];
                if i > 0 {
                    assert(s@ =~= before + seq![' '] + item);
                } else {
                    assert(before =~= Seq::<char>::empty());
                    assert(s@ =~= item);
                }
            }
            i = i + 1;
        }
        proof {
            assert(self.input@.take(self.input@.len() as int) =~= self.input@);
        }
        s
    }

    /// Writes the text that stands for the placeholder `name`.
    pub fn substitute(&self, name: &str) -> (s: String)
        ensures
            s@ == self.substitution(name@),
    {
        let key = String::from_str(name);
        if key == String::from_str("") {
            String::new()
        } else if key == String::from_str("tool") {
            self.tool.clone()
        } else if key == String::from_str("command") {
            self.command.clone()
        } else if key == String::from_str("output") {
            proof {
                reveal_strlit("\"");
                assert("\""@ =~= seq!['"']);
            }
            String::from_str("\"").concat(self.output.as_str()).concat("\"")
        } else if key == String::from_str("input") {
            self.input_text()
        } else {
            match self.parameter(name) {
                Some(v) => v.to_text(),
                None => ParameterValue::NoValue.to_text(),
            }
        }
    }

    /// Writes the command line that an external tool is called with.
    pub fn external_command_line(&self) -> (line: String)
        ensures
            line@ == self.spec_command_line(),
    {
        fill_all("\\$\\{(.*?)\\}", self.cmd_line.as_str(), self)
    }
}

} // verus!
