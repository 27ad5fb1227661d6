//! One document of an asset configuration, and the tool run it describes.

use vstd::prelude::*;
use crate::tool_run::Parameters;
use crate::tool_run::ParameterValue;
use crate::tool_run::ToolRun;

verus! {

/// A single value of a document.
#[derive(Debug)]
pub enum Scalar {
    Integer(i64),
    Text(String),
    /// Anything that is neither a whole number nor a text.
    Other,
}

/// The `input` field of a document.
#[derive(Debug)]
pub enum InputField {
    /// A list of values.
    List(Vec<Scalar>),
    /// One text.
    Text(String),
    /// Anything else, or nothing.
    Other,
}

/// What a tool run reads of a document. A text field is `None` where the
/// document has no text under that key.
#[derive(Debug)]
pub struct Document {
    pub tool: Option<String>,
    pub command: Option<String>,
    pub output: Option<String>,
    pub cmd_line: Option<String>,
    pub input: InputField,
    /// The pairs under `parameters`, in document order.
    pub parameters: Vec<(Scalar, Scalar)>,
}

/// The text of a field, empty where there is none.
pub open spec fn text_or_empty(field: Option<String>) -> Seq<char> {
    match field {
        Some(s) => s@,
        None => Seq::empty(),
    }
}

/// The texts among the values of a list, in order.
pub open spec fn texts_of(list: Seq<Scalar>) -> Seq<String>
    decreases list.len(),
{
    if list.len() == 0 {
        Seq::empty()
    } else {
        match list.last() {
            Scalar::Text(s) => texts_of(list.drop_last()).push(s),
            _ => texts_of(list.drop_last()),
        }
    }
}

/// The input files that a document names: the texts of a list, or the one
/// text, or none.
pub open spec fn inputs_of(field: InputField) -> Seq<String> {
    match field {
        InputField::List(list) => texts_of(list@),
        InputField::Text(s) => seq![s],
        InputField::Other => Seq::empty(),
    }
}

/// The name that a key stands for: its text, or the empty name.
pub open spec fn name_of(key: Scalar) -> Seq<char> {
    match key {
        Scalar::Text(s) => s@,
        _ => Seq::empty(),
    }
}

/// The parameter value that a document value stands for.
pub open spec fn value_of(value: Scalar) -> ParameterValue {
    match value {
        Scalar::Integer(i) => ParameterValue::IntegerValue(i),
        Scalar::Text(s) => ParameterValue::StringValue(s),
        Scalar::Other => ParameterValue::NoValue,
    }
}

/// The parameter value that the pairs of a document give a name: that of the
/// last pair whose key stands for the name.
pub open spec fn value_under(pairs: Seq<(Scalar, Scalar)>, name: Seq<char>) -> Option<
    ParameterValue,
>
    decreases pairs.len(),
{
    if pairs.len() == 0 {
        None
    } else if name_of(pairs.last().0) == name {
        Some(value_of(pairs.last().1))
    } else {
        value_under(pairs.drop_last(), name)
    }
}

/// Whether `run` is the tool run that `doc` describes.
pub open spec fn describes(doc: Document, run: ToolRun) -> bool {
    &&& run.tool@ == text_or_empty(doc.tool)
    &&& run.command@ == text_or_empty(doc.command)
    &&& run.output@ == text_or_empty(doc.output)
    &&& run.cmd_line@ == text_or_empty(doc.cmd_line)
    &&& run.input@ == inputs_of(doc.input)
    &&& run.parameters.wf()
    &&& forall|name: Seq<char>| #[trigger]
        run.parameters.value_of(name) == value_under(doc.parameters@, name)
}

fn text_of(field: &Option<String>) -> (s: String)
    ensures
        s@ == text_or_empty(*field),
{
    match field {
        Some(s) => s.clone(),
        None => String::new(),
    }
}

impl Document {
    /// Lists the input files that the document names.
    pub fn inputs(&self) -> (input: Vec<String>)
        ensures
            input@ == inputs_of(self.input),
    {
        let mut input: Vec<String> = Vec::new();
        match &self.input {
            InputField::List(list) => {
                let mut i: usize = 0;
                while i < list.len()
                    invariant
                        i <= list@.len(),
                        input@ == texts_of(list@.take(i as int)),
                    decreases list@.len() - i,
                {
                    proof {
                        assert(list@.take(i + 1).drop_last() =~= list@.take(i as int));
                        assert(list@.take(i + 1).last() == list@[i as int]);
                    }
                    match &list[i] {
                        Scalar::Text(s) => {
                            input.push(s.clone());
                        },
                        _ => {},
                    }
                    i = i + 1;
                }
                proof {
                    assert(list@.take(list@.len() as int) =~= list@);
                }
            },
            InputField::Text(s) => {
                input.push(s.clone());
                assert(input@ =~= seq![*s]);
            },
            InputField::Other => {},
        }
        input
    }

    /// Collects the parameters that the document names. Of two pairs that
    /// stand for one name, the later gives the value.
    pub fn named_parameters(&self) -> (parameters: Parameters)
        ensures
            parameters.wf(),
            forall|name: Seq<char>| #[trigger]
                parameters.value_of(name) == value_under(self.parameters@, name),
    {
        let mut parameters = Parameters::new();
        let mut i: usize = 0;
        while i < self.parameters.len()
            invariant
                i <= self.parameters@.len(),
                parameters.wf(),
                forall|name: Seq<char>| #[trigger]
                    parameters.value_of(name) == value_under(
                        self.parameters@.take(i as int),
                        name,
                    ),
            decreases self.parameters@.len() - i,
        {
            let pair = &self.parameters[i];
            let name = match &pair.0 {
                Scalar::Text(s) => s.clone(),
                _ => String::new(),
            };
            let value = match &pair.1 {
                Scalar::Integer(v) => ParameterValue::IntegerValue(*v),
                Scalar::Text(s) => ParameterValue::StringValue(s.clone()),
                Scalar::Other => ParameterValue::NoValue,
            };
            proof {
                assert(self.parameters@.take(i + 1).drop_last() =~= self.parameters@.take(
                    i as int,
                ));
                assert(self.parameters@.take(i + 1).last() == *pair);
            }
            parameters.insert(name, value);
            i = i + 1;
        }
        proof {
            assert(self.parameters@.take(self.parameters@.len() as int) =~= self.parameters@);
        }
        parameters
    }

    /// Makes the tool run that the document describes.
    pub fn tool_run(&self) -> (run: ToolRun)
        ensures
            describes(*self, run),
    {
        let tool = text_of(&self.tool);
        let command = text_of(&self.command);
        let output = text_of(&self.output);
        let cmd_line = text_of(&self.cmd_line);
        let input = self.inputs();
        let parameters = self.named_parameters();
        let run = ToolRun::new(
            tool.as_str(),
            command.as_str(),
            output.as_str(),
            &input,
            &parameters,
            cmd_line.as_str(),
        );
        proof {
            assert forall|name: Seq<char>| #[trigger]
                run.parameters.value_of(name) == value_under(self.parameters@, name) by {
                assert(parameters.value_of(name) == value_under(self.parameters@, name));
            }
        }
        run
    }
}

} // verus!
