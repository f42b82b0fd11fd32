//! What kind of answer an overlay row asks for, and how that answer is delivered.

use vstd::prelude::*;

verus! {

/// The form of a yes/no question, which fixes the keystrokes that answer it.
#[derive(Debug, Clone, Copy, PartialEq, Eq, Structural)]
pub enum YesNoFormat {
    /// Short form: "y" / "n".
    YN,
    /// Long form: "yes" / "no".
    YesNo,
    /// The native numbered picker: "1" then Enter, or Escape.
    Numeric,
}

/// Keystrokes that answer "yes" in the given format.
pub open spec fn yes_keys(f: YesNoFormat) -> Seq<char> {
    match f {
        YesNoFormat::YN => seq!['y', '\n'],
        YesNoFormat::YesNo => seq!['y', 'e', 's', '\n'],
        YesNoFormat::Numeric => seq!['1', '\n'],
    }
}

/// Keystrokes that answer "no" in the given format (Escape for the numbered picker).
pub open spec fn no_keys(f: YesNoFormat) -> Seq<char> {
    match f {
        YesNoFormat::YN => seq!['n', '\n'],
        YesNoFormat::YesNo => seq!['n', 'o', '\n'],
        YesNoFormat::Numeric => seq!['\x1b'],
    }
}

/// In every format the "yes" and "no" keystrokes differ, and every answer but the
/// picker's Escape ends with Enter.
pub proof fn law_answers_distinct(f: YesNoFormat)
    ensures
        yes_keys(f) != no_keys(f),
        yes_keys(f).last() == '\n',
        f != YesNoFormat::Numeric ==> no_keys(f).last() == '\n',
{
    assert(yes_keys(f)[0] != no_keys(f)[0]);
}

impl YesNoFormat {
    pub fn yes_text(&self) -> (r: &'static str)
        ensures
            r@ == yes_keys(*self),
    {
        match self {
            YesNoFormat::YN => {
                proof {
                    reveal_strlit("y\n");
                }
                "y\n"
            },
            YesNoFormat::YesNo => {
                proof {
                    reveal_strlit("yes\n");
                }
                "yes\n"
            },
            YesNoFormat::Numeric => {
                proof {
                    reveal_strlit("1\n");
                }
                "1\n"
            },
        }
    }

    pub fn no_text(&self) -> (r: &'static str)
        ensures
            r@ == no_keys(*self),
    {
        match self {
            YesNoFormat::YN => {
                proof {
                    reveal_strlit("n\n");
                }
                "n\n"
            },
            YesNoFormat::YesNo => {
                proof {
                    reveal_strlit("no\n");
                }
                "no\n"
            },
            YesNoFormat::Numeric => {
                proof {
                    reveal_strlit("\x1b");
                }
                "\x1b"
            },
        }
    }
}

/// One option of a choice question.
#[derive(Debug)]
pub struct Choice {
    pub label: String,
    pub description: Option<String>,
}

impl Clone for Choice {
    fn clone(&self) -> (r: Self)
        ensures
            r == *self,
    {
        Choice { label: self.label.clone(), description: clone_opt_string(&self.description) }
    }
}

/// A copy of an optional string.
pub fn clone_opt_string(s: &Option<String>) -> (r: Option<String>)
    ensures
        r == *s,
{
    match s {
        Some(v) => Some(v.clone()),
        None => None,
    }
}

/// A copy of a list of choices.
pub fn clone_choices(v: &Vec<Choice>) -> (r: Vec<Choice>)
    ensures
        r@ == v@,
{
    let mut out: Vec<Choice> = Vec::new();
    let mut i: usize = 0;
    while i < v.len()
        invariant
            i <= v.len(),
            out@ == v@.take(i as int),
        decreases v.len() - i,
    {
        out.push(v[i].clone());
        assert(out@ =~= v@.take(i + 1));
        i = i + 1;
    }
    assert(v@.take(v.len() as int) =~= v@);
    out
}

/// How the answer reaches the waiting program.
#[derive(Debug, Clone, Copy, PartialEq, Eq, Structural)]
pub enum Delivery {
    /// Keystrokes typed into the source terminal window.
    Keystroke,
    /// A JSON answer line written back on the connection the hook holds open.
    BlockResponse,
}

/// The input a notification asks of the user.
#[derive(Debug)]
pub enum InputSpec {
    /// Nothing to answer (serialized with kind "none").
    NoInput,
    YesNo { format: YesNoFormat, delivery: Delivery },
    SingleChoice { options: Vec<Choice>, allow_other: bool, delivery: Delivery },
    MultiChoice { options: Vec<Choice>, allow_other: bool, delivery: Delivery },
    TextInput { placeholder: Option<String>, delivery: Delivery },
}

/// The mathematical content of an `InputSpec`: the option lists as sequences.
pub enum InputModel {
    NoInput,
    YesNo { format: YesNoFormat, delivery: Delivery },
    SingleChoice { options: Seq<Choice>, allow_other: bool, delivery: Delivery },
    MultiChoice { options: Seq<Choice>, allow_other: bool, delivery: Delivery },
    TextInput { placeholder: Option<String>, delivery: Delivery },
}

impl View for InputSpec {
    type V = InputModel;

    open spec fn view(&self) -> InputModel {
        match self {
            InputSpec::NoInput => InputModel::NoInput,
            InputSpec::YesNo { format, delivery } => InputModel::YesNo {
                format: *format,
                delivery: *delivery,
            },
            InputSpec::SingleChoice { options, allow_other, delivery } => InputModel::SingleChoice {
                options: options@,
                allow_other: *allow_other,
                delivery: *delivery,
            },
            InputSpec::MultiChoice { options, allow_other, delivery } => InputModel::MultiChoice {
                options: options@,
                allow_other: *allow_other,
                delivery: *delivery,
            },
            InputSpec::TextInput { placeholder, delivery } => InputModel::TextInput {
                placeholder: *placeholder,
                delivery: *delivery,
            },
        }
    }
}

impl Clone for InputSpec {
    fn clone(&self) -> (r: Self)
        ensures
            r@ == self@,
    {
        match self {
            InputSpec::NoInput => InputSpec::NoInput,
            InputSpec::YesNo { format, delivery } => InputSpec::YesNo {
                format: *format,
                delivery: *delivery,
            },
            InputSpec::SingleChoice { options, allow_other, delivery } => {
                let o = clone_choices(options);
                proof {
                    assert(o@ =~= options@);
                }
                InputSpec::SingleChoice { options: o, allow_other: *allow_other, delivery: *delivery }
            },
            InputSpec::MultiChoice { options, allow_other, delivery } => {
                let o = clone_choices(options);
                proof {
                    assert(o@ =~= options@);
                }
                InputSpec::MultiChoice { options: o, allow_other: *allow_other, delivery: *delivery }
            },
            InputSpec::TextInput { placeholder, delivery } => InputSpec::TextInput {
                placeholder: clone_opt_string(placeholder),
                delivery: *delivery,
            },
        }
    }
}

impl Default for InputSpec {
    fn default() -> (r: Self)
        ensures
            r@ == InputModel::NoInput,
    {
        InputSpec::NoInput
    }
}

impl InputSpec {
    /// The row asks something of the user: every variant but `NoInput`.
    pub open spec fn asks_user(&self) -> bool {
        !(self@ is NoInput)
    }

    /// Whether the row asks something of the user.
    pub fn needs_answer(&self) -> (r: bool)
        ensures
            r == self.asks_user(),
    {
        match self {
            InputSpec::NoInput => false,
            _ => true,
        }
    }
}

} // verus!
