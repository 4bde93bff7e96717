//! The options of the command line, as data: a front end builds its
//! argument parser from this list.

use vstd::prelude::*;

verus! {

/// One option of the command line.
#[derive(Debug, Clone, Copy)]
pub struct CliOption {
    /// The name under which the parsed value is found.
    pub name: &'static str,
    /// The letter of the short form, after one hyphen.
    pub short: char,
    /// The word of the long form, after two hyphens.
    pub long: &'static str,
    /// Whether the command line must give the option.
    pub required: bool,
    /// Whether the option takes a value; one that takes none is a switch.
    pub takes_value: bool,
}

/// The mathematical value of a [`CliOption`].
pub struct CliOptionModel {
    pub name: Seq<char>,
    pub short: char,
    pub long: Seq<char>,
    pub required: bool,
    pub takes_value: bool,
}

impl View for CliOption {
    type V = CliOptionModel;

    open spec fn view(&self) -> CliOptionModel {
        CliOptionModel {
            name: self.name@,
            short: self.short,
            long: self.long@,
            required: self.required,
            takes_value: self.takes_value,
        }
    }
}

impl DeepView for CliOption {
    type V = CliOptionModel;

    open spec fn deep_view(&self) -> CliOptionModel {
        self@
    }
}

/// The options: a switch for verbose output, the path to read from and the
/// path to write to.
pub open spec fn cli_options_spec() -> Seq<CliOptionModel> {
    seq![
        CliOptionModel {
            name: "verbose"@,
            short: 'v',
            long: "verbose"@,
            required: false,
            takes_value: false,
        },
        CliOptionModel {
            name: "input_file"@,
            short: 'i',
            long: "dicom-file"@,
            required: true,
            takes_value: true,
        },
        CliOptionModel {
            name: "output_file"@,
            short: 'o',
            long: "json-file"@,
            required: true,
            takes_value: true,
        },
    ]
}

/// Whether no two options share a name, a short form or a long form, and
/// every switch is optional.
pub open spec fn unambiguous(options: Seq<CliOptionModel>) -> bool {
    &&& forall|a: int, b: int|
        0 <= a < b < options.len() ==> {
            &&& (#[trigger] options[a]).name != (#[trigger] options[b]).name
            &&& options[a].short != options[b].short
            &&& options[a].long != options[b].long
        }
    &&& forall|a: int|
        0 <= a < options.len() ==> ((#[trigger] options[a]).required ==> options[a].takes_value)
}

/// The options of the command line.
pub fn cli_options() -> (options: Vec<CliOption>)
    ensures
        options.deep_view() == cli_options_spec(),
        unambiguous(options.deep_view()),
{
    let mut options: Vec<CliOption> = Vec::new();
    options.push(
        CliOption {
            name: "verbose",
            short: 'v',
            long: "verbose",
            required: false,
            takes_value: false,
        },
    );
    options.push(
        CliOption {
            name: "input_file",
            short: 'i',
            long: "dicom-file",
            required: true,
            takes_value: true,
        },
    );
    options.push(
        CliOption {
            name: "output_file",
            short: 'o',
            long: "json-file",
            required: true,
            takes_value: true,
        },
    );
    proof {
        assert(options.deep_view() =~= cli_options_spec());
        lemma_cli_options_unambiguous();
    }
    options
}

/// No two options of the command line can be confused.
pub proof fn lemma_cli_options_unambiguous()
    ensures
        unambiguous(cli_options_spec()),
{
    reveal_strlit("verbose");
    reveal_strlit("input_file");
    reveal_strlit("output_file");
    reveal_strlit("dicom-file");
    reveal_strlit("json-file");
    let options = cli_options_spec();
    assert(options[0].name.len() == 7 && options[1].name.len() == 10 && options[2].name.len()
        == 11);
    assert(options[0].long.len() == 7 && options[1].long.len() == 10 && options[2].long.len()
        == 9);
}

} // verus!
