use vstd::prelude::*;
use vstd::string::*;
use crate::toml::toml_completeness::{
    completion, is_walk_order, try_complete_module, CompleteError, CompleteErrorView, Completion,
    ModuleAttribute,
};
use crate::toml::toml_generator::{
    build_file_text, create_failed_message, law_build_file_sections, toml_text, generate_toml, has_build_sections, write_failed_message,
    write_result, GenerateFailed, GenerateFailedView,
};
use crate::toml::toml_parser::{
    contents_view, parse_failure_report, parse_outcome, parse_toml, reportable, ParseFailedView,
};
use crate::toml::value::{TomlData, TomlValue};

verus! {

pub open spec fn complete_failure_report(input: Seq<char>, e: CompleteErrorView) -> Seq<char> {
    match e {
        CompleteErrorView::NotEnoughInfo(m) => "Missing information in "@ + input + ":\n"@ + m,
        CompleteErrorView::BadTomlType(m) => "Invalid type for a build parameter in "@ + input
            + ":\n"@ + m,
        CompleteErrorView::DependencyFail(m) => "Error with one of the dependencies in "@ + input
            + ":\n"@ + m,
    }
}

pub open spec fn generate_failure_report(output: Seq<char>, e: GenerateFailedView) -> Seq<char> {
    match e {
        GenerateFailedView::FileError(m) => "Failed to write to "@ + output + ":\n"@ + m,
        GenerateFailedView::ConvertFailed(m) => "Error converting the comb-created build toml to a string:\n"@ + m,
    }
}

pub open spec fn skip_message(output: Seq<char>) -> Seq<char> {
    "File "@ + output + " exists, skipping regeneration..."@
}

/// The message with which the program stops on a value that is not there.
pub open spec fn abort_message() -> Seq<char> {
    "called `Option::unwrap()` on a `None` value"@
}

/// The message with which the program stops on a section that the TOML
/// writer cannot write, with the writer's error.
pub open spec fn unwritable_message(e: Seq<char>) -> Seq<char> {
    "Unable to represent value as string: "@ + e
}

impl CompleteError {
    /// The message that reports this error on the input file `input`.
    pub fn report(&self, input: &str) -> (r: String)
        ensures
            r@ == complete_failure_report(input@, self@),
    {
        let (mut s, m) = match self {
            CompleteError::NotEnoughInfo(m) => (String::from_str("Missing information in "), m),
            CompleteError::BadTomlType(m) => (
                String::from_str("Invalid type for a build parameter in "),
                m,
            ),
            CompleteError::DependencyFail(m) => (
                String::from_str("Error with one of the dependencies in "),
                m,
            ),
        };
        s.append(input);
        s.append(":\n");
        s.append(m.as_str());
        s
    }
}

impl GenerateFailed {
    /// The message that reports this failure on the output file `output`.
    pub fn report(&self, output: &str) -> (r: String)
        ensures
            r@ == generate_failure_report(output@, self@),
    {
        match self {
            GenerateFailed::FileError(m) => {
                let mut s = String::from_str("Failed to write to ");
                s.append(output);
                s.append(":\n");
                s.append(m.as_str());
                s
            },
            GenerateFailed::ConvertFailed(m) => {
                let mut s = String::from_str(
                    "Error converting the comb-created build toml to a string:\n",
                );
                s.append(m.as_str());
                s
            },
        }
    }
}

/// Where the generation of the build file stands: what it waits for.
pub enum BuildStage {
    AwaitExists,
    AwaitParse,
    AwaitCreate(TomlValue),
    AwaitWrite,
    Finished,
}

pub enum BuildStageView {
    AwaitExists,
    AwaitParse,
    AwaitCreate(TomlData),
    AwaitWrite,
    Finished,
}

impl View for BuildStage {
    type V = BuildStageView;

    open spec fn view(&self) -> BuildStageView {
        match self {
            BuildStage::AwaitExists => BuildStageView::AwaitExists,
            BuildStage::AwaitParse => BuildStageView::AwaitParse,
            BuildStage::AwaitCreate(doc) => BuildStageView::AwaitCreate(doc.data()),
            BuildStage::AwaitWrite => BuildStageView::AwaitWrite,
            BuildStage::Finished => BuildStageView::Finished,
        }
    }
}

/// The outcome of the outside work last asked for.
pub enum BuildEvent {
    /// Whether the output exists, or whether it was created, or written.
    Checked(bool),
    /// The text of the input file, or why it could not be read.
    Read(Result<String, String>),
}

pub enum BuildEventView {
    Checked(bool),
    Read(Result<Seq<char>, Seq<char>>),
}

impl View for BuildEvent {
    type V = BuildEventView;

    open spec fn view(&self) -> BuildEventView {
        match self {
            BuildEvent::Checked(b) => BuildEventView::Checked(*b),
            BuildEvent::Read(c) => BuildEventView::Read(contents_view(*c)),
        }
    }
}

/// The outside work that generating the build file asks for.
pub enum BuildAction {
    /// Tell whether the output file exists.
    CheckOutputExists(String),
    /// Read the text of the input file.
    ReadInput(String),
    /// Create the output file.
    CreateOutput(String),
    /// Write these contents to the output file.
    WriteOutput { file: String, contents: String },
    /// Stop the program, with this message: a value it needs is not there.
    Abort(String),
    /// Generation is over: print the message, if any; it succeeded or not.
    Finish { message: Option<String>, succeeded: bool },
}

pub enum BuildActionView {
    CheckOutputExists(Seq<char>),
    ReadInput(Seq<char>),
    CreateOutput(Seq<char>),
    WriteOutput(Seq<char>, Seq<char>),
    Abort(Seq<char>),
    Finish(Option<Seq<char>>, bool),
}

impl View for BuildAction {
    type V = BuildActionView;

    open spec fn view(&self) -> BuildActionView {
        match self {
            BuildAction::CheckOutputExists(f) => BuildActionView::CheckOutputExists(f@),
            BuildAction::ReadInput(f) => BuildActionView::ReadInput(f@),
            BuildAction::CreateOutput(f) => BuildActionView::CreateOutput(f@),
            BuildAction::WriteOutput { file, contents } => BuildActionView::WriteOutput(
                file@,
                contents@,
            ),
            BuildAction::Abort(m) => BuildActionView::Abort(m@),
            BuildAction::Finish { message, succeeded } => BuildActionView::Finish(
                match message {
                    Some(m) => Some(m@),
                    None => None,
                },
                *succeeded,
            ),
        }
    }
}

/// Generating the build file `output` from the module file `input`.
pub struct BuildTomlGeneration {
    input: String,
    output: String,
    update: bool,
    stage: BuildStage,
}

pub struct BuildView {
    pub input: Seq<char>,
    pub output: Seq<char>,
    pub update: bool,
    pub stage: BuildStageView,
}

impl View for BuildTomlGeneration {
    type V = BuildView;

    closed spec fn view(&self) -> BuildView {
        BuildView {
            input: self.input@,
            output: self.output@,
            update: self.update,
            stage: self.stage@,
        }
    }
}

/// Whether `e` is the kind of outcome that stage `s` waits for.
pub open spec fn event_fits(s: BuildStageView, e: BuildEventView) -> bool {
    match s {
        BuildStageView::AwaitExists => e is Checked,
        BuildStageView::AwaitParse => e is Read,
        BuildStageView::AwaitCreate(_) => e is Checked,
        BuildStageView::AwaitWrite => e is Checked,
        BuildStageView::Finished => false,
    }
}

/// Generation may go from `s` to `t`, asking for `a`, on outcome `e`.
pub open spec fn build_step(s: BuildView, e: BuildEventView, t: BuildView, a: BuildActionView) -> bool {
    &&& t.input == s.input
    &&& t.output == s.output
    &&& t.update == s.update
    &&& match (s.stage, e) {
        (BuildStageView::AwaitExists, BuildEventView::Checked(exists)) => if exists && !s.update {
            t.stage is Finished && a == BuildActionView::Finish(Some(skip_message(s.output)), true)
        } else {
            t.stage is AwaitParse && a == BuildActionView::ReadInput(s.input)
        },
        (BuildStageView::AwaitParse, BuildEventView::Read(c)) => match parse_outcome(c) {
            Err(pe) => t.stage is Finished && if reportable(pe) {
                a == BuildActionView::Finish(Some(parse_failure_report(s.input, pe)), false)
            } else {
                a == BuildActionView::Abort(abort_message())
            },
            Ok(doc) => exists|
            order: Seq<ModuleAttribute>,
        |
            #![trigger completion(doc, order)]
            is_walk_order(order) && match completion(doc, order) {
                (completed, Completion::Done) => t.stage == BuildStageView::AwaitCreate(completed)
                    && a == BuildActionView::CreateOutput(s.output),
                (_, Completion::Failed(ce)) => t.stage is Finished && a == BuildActionView::Finish(
                    Some(complete_failure_report(s.input, ce)),
                    false,
                ),
                (_, Completion::Aborted) => t.stage is Finished && a == BuildActionView::Abort(
                    abort_message(),
                ),
            },
        },
        (BuildStageView::AwaitCreate(doc), BuildEventView::Checked(created)) => if !created {
            t.stage is Finished && a == BuildActionView::Finish(
                Some(
                    generate_failure_report(
                        s.output,
                        GenerateFailedView::FileError(create_failed_message()),
                    ),
                ),
                false,
            )
        } else if !has_build_sections(doc) {
            t.stage is Finished && a == BuildActionView::Abort(abort_message())
        } else {
            match build_file_text(doc) {
                Ok(text) => t.stage is AwaitWrite && a == BuildActionView::WriteOutput(
                    s.output,
                    text,
                ),
                Err(e) => t.stage is Finished && a == BuildActionView::Abort(unwritable_message(e)),
            }
        },
        (BuildStageView::AwaitWrite, BuildEventView::Checked(written)) => t.stage is Finished
            && if written {
            a == BuildActionView::Finish(None, true)
        } else {
            a == BuildActionView::Finish(
                Some(
                    generate_failure_report(
                        s.output,
                        GenerateFailedView::FileError(write_failed_message()),
                    ),
                ),
                false,
            )
        },
        _ => false,
    }
}

/// Starts generating the build file `output_file_name` from the module
/// file `input_file_name`; with `update` unset an existing build file is kept.
/// The first thing to know is whether the output exists.
pub fn generate_build_toml(input_file_name: &str, output_file_name: &str, update: bool) -> (r: (
    BuildTomlGeneration,
    BuildAction,
))
    ensures
        r.0@ == (BuildView {
            input: input_file_name@,
            output: output_file_name@,
            update,
            stage: BuildStageView::AwaitExists,
        }),
        r.1@ == BuildActionView::CheckOutputExists(output_file_name@),
{
    (
        BuildTomlGeneration {
            input: String::from_str(input_file_name),
            output: String::from_str(output_file_name),
            update,
            stage: BuildStage::AwaitExists,
        },
        BuildAction::CheckOutputExists(String::from_str(output_file_name)),
    )
}

impl BuildTomlGeneration {
    /// Whether generation waits for an outcome of the kind of `event`.
    pub fn expects(&self, event: &BuildEvent) -> (r: bool)
        ensures
            r == event_fits(self@.stage, event@),
    {
        match (&self.stage, event) {
            (BuildStage::AwaitExists, BuildEvent::Checked(_)) => true,
            (BuildStage::AwaitParse, BuildEvent::Read(_)) => true,
            (BuildStage::AwaitCreate(_), BuildEvent::Checked(_)) => true,
            (BuildStage::AwaitWrite, BuildEvent::Checked(_)) => true,
            _ => false,
        }
    }

    /// Takes the outcome of the outside work last asked for, and asks for
    /// the next.
    pub fn step(&mut self, event: BuildEvent) -> (a: BuildAction)
        requires
            event_fits(old(self)@.stage, event@),
        ensures
            build_step(old(self)@, event@, final(self)@, a@),
    {
        let mut stage = BuildStage::Finished;
        std::mem::swap(&mut stage, &mut self.stage);
        let ghost e = event@;
        match (stage, event) {
            (BuildStage::AwaitExists, BuildEvent::Checked(exists)) => {
                if exists && !self.update {
                    let mut m = String::from_str("File ");
                    m.append(self.output.as_str());
                    m.append(" exists, skipping regeneration...");
                    BuildAction::Finish { message: Some(m), succeeded: true }
                } else {
                    self.stage = BuildStage::AwaitParse;
                    BuildAction::ReadInput(self.input.clone())
                }
            },
            (BuildStage::AwaitParse, BuildEvent::Read(contents)) => match parse_toml(contents) {
                Err(pe) => {
                    if pe.is_reportable() {
                        let m = pe.report(self.input.as_str());
                        BuildAction::Finish { message: Some(m), succeeded: false }
                    } else {
                        BuildAction::Abort(
                            String::from_str("called `Option::unwrap()` on a `None` value"),
                        )
                    }
                },
                Ok(doc) => {
                let mut parsed_toml = doc;
                match try_complete_module(&mut parsed_toml) {
                    None => BuildAction::Abort(
                        String::from_str("called `Option::unwrap()` on a `None` value"),
                    ),
                    Some(Err(ce)) => {
                        let m = ce.report(self.input.as_str());
                        BuildAction::Finish { message: Some(m), succeeded: false }
                    },
                    Some(Ok(())) => {
                        self.stage = BuildStage::AwaitCreate(parsed_toml);
                        BuildAction::CreateOutput(self.output.clone())
                    },
                }
                },
            },
            (BuildStage::AwaitCreate(doc), BuildEvent::Checked(created)) => {
                let has_sections = match doc.as_table() {
                    Some(top) => top.contains_key("module") && top.contains_key("dependencies"),
                    None => false,
                };
                if created && !has_sections {
                    BuildAction::Abort(
                        String::from_str("called `Option::unwrap()` on a `None` value"),
                    )
                } else {
                    match generate_toml(&doc, created) {
                        Ok(contents) => {
                            self.stage = BuildStage::AwaitWrite;
                            BuildAction::WriteOutput { file: self.output.clone(), contents }
                        },
                        Err(GenerateFailed::ConvertFailed(e)) => {
                            let mut m = String::from_str("Unable to represent value as string: ");
                            m.append(e.as_str());
                            BuildAction::Abort(m)
                        },
                        Err(e) => {
                            let m = e.report(self.output.as_str());
                            BuildAction::Finish { message: Some(m), succeeded: false }
                        },
                    }
                }
            },
            (BuildStage::AwaitWrite, BuildEvent::Checked(written)) => match write_result(written) {
                Ok(()) => BuildAction::Finish { message: None, succeeded: true },
                Err(e) => {
                    let m = e.report(self.output.as_str());
                    BuildAction::Finish { message: Some(m), succeeded: false }
                },
            },
            _ => {
                proof {
                    assert(false);
                }
                BuildAction::Finish { message: None, succeeded: false }
            },
        }
    }
}

/// Without `update`, an existing build file is kept: generation ends at
/// once, successfully, saying that it skips regeneration.
pub proof fn law_existing_build_file_kept(s: BuildView, t: BuildView, a: BuildActionView)
    requires
        build_step(s, BuildEventView::Checked(true), t, a),
        s.stage is AwaitExists,
        !s.update,
    ensures
        t.stage is Finished,
        a == BuildActionView::Finish(
            Some("File "@ + s.output + " exists, skipping regeneration..."@),
            true,
        ),
{
}

/// Generation never ends unsuccessfully without a message that says why.
pub proof fn law_failure_is_reported(
    s: BuildView,
    e: BuildEventView,
    t: BuildView,
    a: BuildActionView,
)
    requires
        build_step(s, e, t, a),
        a matches BuildActionView::Finish(_, false),
    ensures
        a matches BuildActionView::Finish(Some(_), false),
{
}

/// Generation ends successfully without a message only once the build
/// file has been written.
pub proof fn law_success_after_write(s: BuildView, e: BuildEventView, t: BuildView)
    requires
        build_step(s, e, t, BuildActionView::Finish(None, true)),
    ensures
        s.stage is AwaitWrite,
        e == BuildEventView::Checked(true),
{
}

/// Without an existing build file, or with `update`, generation goes on to
/// read the input file: only an existing build file without `update` ends it
/// at once.
pub proof fn law_missing_output_is_generated(
    s: BuildView,
    present: bool,
    t: BuildView,
    a: BuildActionView,
)
    requires
        build_step(s, BuildEventView::Checked(present), t, a),
        s.stage is AwaitExists,
        !present || s.update,
    ensures
        t.stage is AwaitParse,
        a == BuildActionView::ReadInput(s.input),
        t.input == s.input && t.output == s.output && t.update == s.update,
{
}

/// An input file that cannot be read ends generation unsuccessfully, with
/// a message that names the file and says why.
pub proof fn law_unreadable_input_reported(
    s: BuildView,
    why: Seq<char>,
    t: BuildView,
    a: BuildActionView,
)
    requires
        build_step(s, BuildEventView::Read(Err(why)), t, a),
        s.stage is AwaitParse,
    ensures
        t.stage is Finished,
        a == BuildActionView::Finish(Some("Error reading "@ + s.input + ":\n"@ + why), false),
{
}

/// A build file that cannot be created, or written, ends generation
/// unsuccessfully, with a message that names the output file and says which;
/// a build file written ends it successfully, without a message.
pub proof fn law_output_outcomes(s: BuildView, ok: bool, t: BuildView, a: BuildActionView)
    requires
        build_step(s, BuildEventView::Checked(ok), t, a),
        s.stage is AwaitCreate || s.stage is AwaitWrite,
    ensures
        s.stage is AwaitCreate && !ok ==> t.stage is Finished && a == BuildActionView::Finish(
            Some("Failed to write to "@ + s.output + ":\n"@ + "couldn't create file comb.build"@),
            false,
        ),
        s.stage is AwaitWrite && !ok ==> t.stage is Finished && a == BuildActionView::Finish(
            Some("Failed to write to "@ + s.output + ":\n"@ + "failed to write to comb.build"@),
            false,
        ),
        s.stage is AwaitWrite && ok ==> t.stage is Finished && a == BuildActionView::Finish(
            None,
            true,
        ),
{
}

/// Once the build file is created, what is written into it is the completed
/// document's `module` value and `dependencies` value, each unchanged and
/// written by the TOML writer as a table of that one entry, each text
/// followed by a newline.
pub proof fn law_written_build_file(
    s: BuildView,
    top: Map<Seq<char>, TomlData>,
    module_text: Seq<char>,
    dependencies_text: Seq<char>,
    t: BuildView,
    a: BuildActionView,
)
    requires
        s.stage == BuildStageView::AwaitCreate(TomlData::Table(top)),
        build_step(s, BuildEventView::Checked(true), t, a),
        top.contains_key("module"@),
        top.contains_key("dependencies"@),
        toml_text(TomlData::Table(Map::empty().insert("module"@, top["module"@]))) == Ok::<
            Seq<char>,
            Seq<char>,
        >(module_text),
        toml_text(TomlData::Table(Map::empty().insert("dependencies"@, top["dependencies"@])))
            == Ok::<Seq<char>, Seq<char>>(dependencies_text),
    ensures
        t.stage is AwaitWrite,
        a == BuildActionView::WriteOutput(
            s.output,
            module_text + "\n"@ + dependencies_text + "\n"@,
        ),
{
    law_build_file_sections(top);
}

/// Generation reads only the input file, and creates, and writes, only the
/// output file; it creates the output only after reading the input, and
/// writes it only once created.
pub proof fn law_files_named(s: BuildView, e: BuildEventView, t: BuildView, a: BuildActionView)
    requires
        build_step(s, e, t, a),
    ensures
        a matches BuildActionView::ReadInput(f) ==> f == s.input && s.stage is AwaitExists,
        a matches BuildActionView::CreateOutput(f) ==> f == s.output && s.stage is AwaitParse,
        a matches BuildActionView::WriteOutput(f, _) ==> f == s.output && s.stage is AwaitCreate,
        t.input == s.input && t.output == s.output && t.update == s.update,
{
}

/// The reports of a failed completion and of a failed generation: each
/// names the file it concerns and gives the error's own message.
pub proof fn law_failure_reports(input: Seq<char>, output: Seq<char>, m: Seq<char>)
    ensures
        complete_failure_report(input, CompleteErrorView::NotEnoughInfo(m)) == "Missing information in "@
            + input + ":\n"@ + m,
        complete_failure_report(input, CompleteErrorView::BadTomlType(m))
            == "Invalid type for a build parameter in "@ + input + ":\n"@ + m,
        complete_failure_report(input, CompleteErrorView::DependencyFail(m))
            == "Error with one of the dependencies in "@ + input + ":\n"@ + m,
        generate_failure_report(output, GenerateFailedView::FileError(m)) == "Failed to write to "@
            + output + ":\n"@ + m,
        generate_failure_report(output, GenerateFailedView::ConvertFailed(m))
            == "Error converting the comb-created build toml to a string:\n"@ + m,
{
}

} // verus!
