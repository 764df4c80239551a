//! The form with which a comparison is asked for.
use crate::api;
use crate::api::{AppError, ErrorView};
use crate::jobs;
use crate::simulation;
use crate::text;
use vstd::prelude::*;

verus! {

// ── Fields ─────────────────────────────────────────────────────────────────

/// What a field of the form is for.
#[derive(Clone, Copy, Debug, PartialEq, Eq, Structural)]
pub enum FieldKind {
    Mode,
    CurrentWasm,
    BaseWasm,
    ContractId,
    FunctionName,
    Args,
    /// Nothing: a field that is not known is ignored.
    Unknown,
}

/// What a field of this name is for.
pub open spec fn kind_of(name: Seq<char>) -> FieldKind {
    if name == "mode"@ {
        FieldKind::Mode
    } else if name == "current_wasm"@ {
        FieldKind::CurrentWasm
    } else if name == "base_wasm"@ {
        FieldKind::BaseWasm
    } else if name == "contract_id"@ {
        FieldKind::ContractId
    } else if name == "function_name"@ {
        FieldKind::FunctionName
    } else if name == "args"@ {
        FieldKind::Args
    } else {
        FieldKind::Unknown
    }
}

/// What a field is for. A field without a name is not known.
pub fn field_kind(name: Option<&str>) -> (kind: FieldKind)
    ensures
        kind == match name {
            Some(name) => kind_of(name@),
            None => FieldKind::Unknown,
        },
{
    let name = match name {
        Some(name) => name,
        None => return FieldKind::Unknown,
    };
    if text::same(name, "mode") {
        FieldKind::Mode
    } else if text::same(name, "current_wasm") {
        FieldKind::CurrentWasm
    } else if text::same(name, "base_wasm") {
        FieldKind::BaseWasm
    } else if text::same(name, "contract_id") {
        FieldKind::ContractId
    } else if text::same(name, "function_name") {
        FieldKind::FunctionName
    } else if text::same(name, "args") {
        FieldKind::Args
    } else {
        FieldKind::Unknown
    }
}

/// What is said of a field that cannot be read.
pub open spec fn unreadable(kind: FieldKind) -> Seq<char> {
    match kind {
        FieldKind::Mode => "Invalid mode field: "@,
        FieldKind::CurrentWasm => "Failed to read current_wasm: "@,
        FieldKind::BaseWasm => "Failed to read base_wasm: "@,
        FieldKind::ContractId => "Invalid contract_id: "@,
        FieldKind::FunctionName => "Invalid function_name: "@,
        FieldKind::Args => "Invalid args: "@,
        FieldKind::Unknown => "Failed to read multipart field: "@,
    }
}

/// Why the request is refused when a field cannot be read. The kind is not known as long as the
/// field itself could not be reached.
pub fn field_error(kind: FieldKind, error: &str) -> (r: AppError)
    ensures
        r@ == ErrorView::BadRequest(unreadable(kind) + error@),
{
    let message = match kind {
        FieldKind::Mode => "Invalid mode field: ",
        FieldKind::CurrentWasm => "Failed to read current_wasm: ",
        FieldKind::BaseWasm => "Failed to read base_wasm: ",
        FieldKind::ContractId => "Invalid contract_id: ",
        FieldKind::FunctionName => "Invalid function_name: ",
        FieldKind::Args => "Invalid args: ",
        FieldKind::Unknown => "Failed to read multipart field: ",
    };
    AppError::BadRequest(api::told(message, error))
}

// ── Arguments ──────────────────────────────────────────────────────────────

/// The texts that `serde_json::from_str::<Vec<String>>` reads from a text, if it can.
pub uninterp spec fn listed_texts(text: Seq<char>) -> Option<Seq<Seq<char>>>;

/// Calls `serde_json::from_str::<Vec<String>>`. Claims that the texts are those which
/// [`listed_texts`] names.
#[verifier::external_body]
fn read_texts(text: &str) -> (r: Option<Vec<String>>)
    ensures
        listed_texts(text@) == jobs::texts_view(r),
{
    serde_json::from_str::<Vec<String>>(text).ok()
}

/// The arguments that were read, or none where they could not be read.
pub open spec fn args_or_none(listed: Option<Seq<Seq<char>>>) -> Seq<Seq<char>> {
    match listed {
        Some(args) => args,
        None => Seq::empty(),
    }
}

// ── The form ───────────────────────────────────────────────────────────────

/// The form, as far as it was filled in.
#[derive(Debug)]
pub struct CompareForm {
    pub mode: Option<String>,
    pub current_wasm: Option<Vec<u8>>,
    pub base_wasm: Option<Vec<u8>>,
    pub contract_id: Option<String>,
    pub function_name: Option<String>,
    pub args: Vec<String>,
}

/// What a [`CompareForm`] stands for.
pub struct FormView {
    pub mode: Option<Seq<char>>,
    pub current_wasm: Option<Seq<u8>>,
    pub base_wasm: Option<Seq<u8>>,
    pub contract_id: Option<Seq<char>>,
    pub function_name: Option<Seq<char>>,
    pub args: Seq<Seq<char>>,
}

impl View for CompareForm {
    type V = FormView;

    open spec fn view(&self) -> FormView {
        FormView {
            mode: jobs::text_view(self.mode),
            current_wasm: jobs::bytes_view(self.current_wasm),
            base_wasm: jobs::bytes_view(self.base_wasm),
            contract_id: jobs::text_view(self.contract_id),
            function_name: jobs::text_view(self.function_name),
            args: simulation::texts(self.args@),
        }
    }
}

/// The form before anything was filled in.
pub open spec fn empty_form() -> FormView {
    FormView {
        mode: None,
        current_wasm: None,
        base_wasm: None,
        contract_id: None,
        function_name: None,
        args: Seq::empty(),
    }
}

/// The form after a field with a text. A field that takes no text leaves it as it is.
pub open spec fn with_text(form: FormView, kind: FieldKind, text: Seq<char>) -> FormView {
    match kind {
        FieldKind::Mode => FormView { mode: Some(text), ..form },
        FieldKind::ContractId => FormView { contract_id: Some(text), ..form },
        FieldKind::FunctionName => FormView { function_name: Some(text), ..form },
        FieldKind::Args => FormView { args: args_or_none(listed_texts(text)), ..form },
        _ => form,
    }
}

/// The form after a field with a file. A field that takes no file leaves it as it is.
pub open spec fn with_file(form: FormView, kind: FieldKind, bytes: Seq<u8>) -> FormView {
    match kind {
        FieldKind::CurrentWasm => FormView { current_wasm: Some(bytes), ..form },
        FieldKind::BaseWasm => FormView { base_wasm: Some(bytes), ..form },
        _ => form,
    }
}

/// What is to be compared: the bytes of files, and a contract call where one is deployed.
#[derive(Debug)]
pub enum CompareInput {
    LocalVsLocal { current: Vec<u8>, base: Vec<u8> },
    LocalVsDeployed {
        current: Vec<u8>,
        contract_id: String,
        function_name: String,
        args: Vec<String>,
    },
}

/// What a [`CompareInput`] stands for.
pub enum InputView {
    LocalVsLocal { current: Seq<u8>, base: Seq<u8> },
    LocalVsDeployed {
        current: Seq<u8>,
        contract_id: Seq<char>,
        function_name: Seq<char>,
        args: Seq<Seq<char>>,
    },
}

impl View for CompareInput {
    type V = InputView;

    open spec fn view(&self) -> InputView {
        match *self {
            CompareInput::LocalVsLocal { current, base } => InputView::LocalVsLocal {
                current: current@,
                base: base@,
            },
            CompareInput::LocalVsDeployed { current, contract_id, function_name, args } => {
                InputView::LocalVsDeployed {
                    current: current@,
                    contract_id: contract_id@,
                    function_name: function_name@,
                    args: simulation::texts(args@),
                }
            },
        }
    }
}

/// The mode that a form asks for: two files, where it says nothing.
pub open spec fn mode_of(form: FormView) -> Seq<char> {
    match form.mode {
        Some(mode) => mode,
        None => "local_vs_local"@,
    }
}

/// What a form asks to compare, or what is said of one that is incomplete.
pub open spec fn asked(form: FormView) -> Result<InputView, Seq<char>> {
    let mode = mode_of(form);
    if mode == "local_vs_local"@ {
        if form.current_wasm is None {
            Err("Missing current_wasm file"@)
        } else if form.base_wasm is None {
            Err("Missing base_wasm file"@)
        } else {
            Ok(
                InputView::LocalVsLocal {
                    current: form.current_wasm->0,
                    base: form.base_wasm->0,
                },
            )
        }
    } else if mode == "local_vs_deployed"@ {
        if form.current_wasm is None {
            Err("Missing current_wasm file"@)
        } else if form.contract_id is None {
            Err("Missing contract_id"@)
        } else if form.function_name is None {
            Err("Missing function_name"@)
        } else {
            Ok(
                InputView::LocalVsDeployed {
                    current: form.current_wasm->0,
                    contract_id: form.contract_id->0,
                    function_name: form.function_name->0,
                    args: form.args,
                },
            )
        }
    } else {
        Err(
            "Unknown mode '"@ + mode
                + "'. Use 'local_vs_local' or 'local_vs_deployed'"@,
        )
    }
}

impl CompareForm {
    /// A form with nothing filled in.
    pub fn new() -> (r: CompareForm)
        ensures
            r@ == empty_form(),
    {
        let r = CompareForm {
            mode: None,
            current_wasm: None,
            base_wasm: None,
            contract_id: None,
            function_name: None,
            args: Vec::new(),
        };
        assert(simulation::texts(r.args@) =~= Seq::<Seq<char>>::empty());
        r
    }

    /// Fills in the arguments that were read, or none where they could not be read.
    pub fn take_args(&mut self, listed: Option<Vec<String>>)
        ensures
            final(self)@ == (FormView { args: args_or_none(jobs::texts_view(listed)), ..old(self)@ }),
    {
        let args = match listed {
            Some(args) => args,
            None => Vec::new(),
        };
        assert(listed is None ==> simulation::texts(args@) =~= Seq::<Seq<char>>::empty());
        self.args = args;
    }

    /// Fills in a field with a text.
    pub fn take_text(&mut self, kind: FieldKind, text: String)
        ensures
            final(self)@ == with_text(old(self)@, kind, text@),
    {
        match kind {
            FieldKind::Mode => {
                self.mode = Some(text);
            },
            FieldKind::ContractId => {
                self.contract_id = Some(text);
            },
            FieldKind::FunctionName => {
                self.function_name = Some(text);
            },
            FieldKind::Args => {
                self.take_args(read_texts(text.as_str()));
            },
            _ => {},
        }
    }

    /// Fills in a field with a file.
    pub fn take_file(&mut self, kind: FieldKind, bytes: Vec<u8>)
        ensures
            final(self)@ == with_file(old(self)@, kind, bytes@),
    {
        match kind {
            FieldKind::CurrentWasm => {
                self.current_wasm = Some(bytes);
            },
            FieldKind::BaseWasm => {
                self.base_wasm = Some(bytes);
            },
            _ => {},
        }
    }

    /// What the form asks to compare. An incomplete form is a bad request.
    pub fn resolve(self) -> (r: Result<CompareInput, AppError>)
        ensures
            match r {
                Ok(input) => asked(self@) == Ok::<InputView, Seq<char>>(input@),
                Err(error) => asked(self@) is Err && error@ == ErrorView::BadRequest(
                    asked(self@)->Err_0,
                ),
            },
    {
        let mode = match &self.mode {
            Some(mode) => mode.clone(),
            None => "local_vs_local".to_owned(),
        };
        if text::same(mode.as_str(), "local_vs_local") {
            let current = match self.current_wasm {
                Some(bytes) => bytes,
                None => return Err(AppError::BadRequest("Missing current_wasm file".to_owned())),
            };
            let base = match self.base_wasm {
                Some(bytes) => bytes,
                None => return Err(AppError::BadRequest("Missing base_wasm file".to_owned())),
            };
            Ok(CompareInput::LocalVsLocal { current, base })
        } else if text::same(mode.as_str(), "local_vs_deployed") {
            let current = match self.current_wasm {
                Some(bytes) => bytes,
                None => return Err(AppError::BadRequest("Missing current_wasm file".to_owned())),
            };
            let contract_id = match self.contract_id {
                Some(contract_id) => contract_id,
                None => return Err(AppError::BadRequest("Missing contract_id".to_owned())),
            };
            let function_name = match self.function_name {
                Some(function_name) => function_name,
                None => return Err(AppError::BadRequest("Missing function_name".to_owned())),
            };
            Ok(
                CompareInput::LocalVsDeployed {
                    current,
                    contract_id,
                    function_name,
                    args: self.args,
                },
            )
        } else {
            let mut message = "Unknown mode '".to_owned();
            message.append(mode.as_str());
            message.append("'. Use 'local_vs_local' or 'local_vs_deployed'");
            Err(AppError::BadRequest(message))
        }
    }
}

// ── Temporary files ────────────────────────────────────────────────────────

/// What is done with a temporary file.
#[derive(Clone, Copy, Debug, PartialEq, Eq, Structural)]
pub enum FileStep {
    Create,
    Write,
    Persist,
}

/// What is said of a step that failed.
pub open spec fn step_failure(step: FileStep) -> Seq<char> {
    match step {
        FileStep::Create => "Failed to create temp file: "@,
        FileStep::Write => "Failed to write temp file: "@,
        FileStep::Persist => "Failed to persist temp file: "@,
    }
}

/// Why the request is refused when a temporary file cannot be had.
pub fn file_error(step: FileStep, error: &str) -> (r: AppError)
    ensures
        r@ == ErrorView::Internal(step_failure(step) + error@),
{
    let message = match step {
        FileStep::Create => "Failed to create temp file: ",
        FileStep::Write => "Failed to write temp file: ",
        FileStep::Persist => "Failed to persist temp file: ",
    };
    AppError::Internal(api::told(message, error))
}

// ── Laws ───────────────────────────────────────────────────────────────────

/// A form that names no mode is answered as one that asks for two files.
pub proof fn law_default_mode(form: FormView)
    requires
        form.mode is None,
    ensures
        asked(form) == asked(FormView { mode: Some("local_vs_local"@), ..form }),
{
}

/// A field that is not known changes nothing.
pub proof fn law_unknown_fields_are_ignored(form: FormView, text: Seq<char>, bytes: Seq<u8>)
    ensures
        with_text(form, FieldKind::Unknown, text) == form,
        with_file(form, FieldKind::Unknown, bytes) == form,
{
}

/// Of two fields of one kind the later one counts.
pub proof fn law_last_field_counts(
    form: FormView,
    kind: FieldKind,
    first_text: Seq<char>,
    text: Seq<char>,
    first_bytes: Seq<u8>,
    bytes: Seq<u8>,
)
    ensures
        with_text(with_text(form, kind, first_text), kind, text) == with_text(form, kind, text),
        with_file(with_file(form, kind, first_bytes), kind, bytes) == with_file(form, kind, bytes),
{
}

/// Fields of different kinds can come in any order.
pub proof fn law_field_order_is_irrelevant(
    form: FormView,
    a: FieldKind,
    b: FieldKind,
    text: Seq<char>,
    other_text: Seq<char>,
    bytes: Seq<u8>,
    other_bytes: Seq<u8>,
)
    requires
        a != b,
    ensures
        with_text(with_text(form, a, text), b, other_text) == with_text(
            with_text(form, b, other_text),
            a,
            text,
        ),
        with_file(with_file(form, a, bytes), b, other_bytes) == with_file(
            with_file(form, b, other_bytes),
            a,
            bytes,
        ),
        with_file(with_text(form, a, text), b, bytes) == with_text(
            with_file(form, b, bytes),
            a,
            text,
        ),
{
}

/// The names of the fields differ.
proof fn lemma_field_names()
    ensures
        kind_of("mode"@) == FieldKind::Mode,
        kind_of("current_wasm"@) == FieldKind::CurrentWasm,
        kind_of("base_wasm"@) == FieldKind::BaseWasm,
        kind_of("contract_id"@) == FieldKind::ContractId,
        kind_of("function_name"@) == FieldKind::FunctionName,
        kind_of("args"@) == FieldKind::Args,
{
    reveal_strlit("mode");
    reveal_strlit("current_wasm");
    reveal_strlit("base_wasm");
    reveal_strlit("contract_id");
    reveal_strlit("function_name");
    reveal_strlit("args");
    assert("mode"@[0] == 'm' && "args"@[0] == 'a');
    assert("mode"@.len() == 4 && "args"@.len() == 4);
    assert("current_wasm"@.len() == 12);
    assert("base_wasm"@.len() == 9);
    assert("contract_id"@.len() == 11);
    assert("function_name"@.len() == 13);
}

/// A field is known by its name, and by no other.
pub proof fn law_fields_are_known_by_their_names(name: Seq<char>)
    ensures
        kind_of(name) == FieldKind::Mode <==> name == "mode"@,
        kind_of(name) == FieldKind::CurrentWasm <==> name == "current_wasm"@,
        kind_of(name) == FieldKind::BaseWasm <==> name == "base_wasm"@,
        kind_of(name) == FieldKind::ContractId <==> name == "contract_id"@,
        kind_of(name) == FieldKind::FunctionName <==> name == "function_name"@,
        kind_of(name) == FieldKind::Args <==> name == "args"@,
{
    lemma_field_names();
}

/// A text goes into the field that it was sent for, and into no other; one that was sent for a file
/// goes nowhere. Arguments that cannot be read are none.
pub proof fn law_texts_go_into_their_field(form: FormView, kind: FieldKind, text: Seq<char>)
    ensures
        ({
            let after = with_text(form, kind, text);
            &&& after.mode == if kind == FieldKind::Mode {
                Some(text)
            } else {
                form.mode
            }
            &&& after.contract_id == if kind == FieldKind::ContractId {
                Some(text)
            } else {
                form.contract_id
            }
            &&& after.function_name == if kind == FieldKind::FunctionName {
                Some(text)
            } else {
                form.function_name
            }
            &&& kind != FieldKind::Args ==> after.args == form.args
            &&& kind == FieldKind::Args ==> match listed_texts(text) {
                Some(listed) => after.args == listed,
                None => after.args.len() == 0,
            }
            &&& after.current_wasm == form.current_wasm
            &&& after.base_wasm == form.base_wasm
        }),
{
}

/// A file goes into the field that it was sent for, and into no other; one that was sent for a text
/// goes nowhere.
pub proof fn law_files_go_into_their_field(form: FormView, kind: FieldKind, bytes: Seq<u8>)
    ensures
        ({
            let after = with_file(form, kind, bytes);
            &&& after.current_wasm == if kind == FieldKind::CurrentWasm {
                Some(bytes)
            } else {
                form.current_wasm
            }
            &&& after.base_wasm == if kind == FieldKind::BaseWasm {
                Some(bytes)
            } else {
                form.base_wasm
            }
            &&& after.mode == form.mode
            &&& after.contract_id == form.contract_id
            &&& after.function_name == form.function_name
            &&& after.args == form.args
        }),
{
}

/// The modes differ.
proof fn lemma_modes()
    ensures
        "local_vs_local"@ != "local_vs_deployed"@,
{
    reveal_strlit("local_vs_local");
    reveal_strlit("local_vs_deployed");
    assert("local_vs_local"@.len() != "local_vs_deployed"@.len());
}

/// A form for two files, which is what one without a mode is for, asks to compare the files that it
/// holds; the first of them that is missing is named.
pub proof fn law_two_files_are_asked_for(form: FormView)
    requires
        form.mode is None || form.mode == Some("local_vs_local"@),
    ensures
        form.current_wasm is Some && form.base_wasm is Some <==> asked(form) is Ok,
        asked(form) is Ok ==> asked(form)->Ok_0 == (InputView::LocalVsLocal {
            current: form.current_wasm->0,
            base: form.base_wasm->0,
        }),
        form.current_wasm is None ==> asked(form) == Err::<InputView, Seq<char>>(
            "Missing current_wasm file"@,
        ),
        form.current_wasm is Some && form.base_wasm is None ==> asked(form) == Err::<
            InputView,
            Seq<char>,
        >("Missing base_wasm file"@),
{
}

/// A form for a file and what is deployed asks to compare the file that it holds with the contract,
/// by the function and with the arguments that it names; the first of them that is missing is named.
pub proof fn law_deployed_contract_is_asked_for(form: FormView)
    requires
        form.mode == Some("local_vs_deployed"@),
    ensures
        form.current_wasm is Some && form.contract_id is Some && form.function_name is Some
            <==> asked(form) is Ok,
        asked(form) is Ok ==> asked(form)->Ok_0 == (InputView::LocalVsDeployed {
            current: form.current_wasm->0,
            contract_id: form.contract_id->0,
            function_name: form.function_name->0,
            args: form.args,
        }),
        form.current_wasm is None ==> asked(form) == Err::<InputView, Seq<char>>(
            "Missing current_wasm file"@,
        ),
        form.current_wasm is Some && form.contract_id is None ==> asked(form) == Err::<
            InputView,
            Seq<char>,
        >("Missing contract_id"@),
        form.current_wasm is Some && form.contract_id is Some && form.function_name is None
            ==> asked(form) == Err::<InputView, Seq<char>>("Missing function_name"@),
{
    lemma_modes();
}

/// Any other mode is refused, and named.
pub proof fn law_other_modes_are_refused(form: FormView)
    requires
        form.mode matches Some(mode) && mode != "local_vs_local"@ && mode != "local_vs_deployed"@,
    ensures
        asked(form) == Err::<InputView, Seq<char>>(
            "Unknown mode '"@ + form.mode->0 + "'. Use 'local_vs_local' or 'local_vs_deployed'"@,
        ),
{
}

/// A new form has nothing filled in, and so is incomplete; with two files it asks to compare these.
pub proof fn law_new_forms_are_empty(current: Seq<u8>, base: Seq<u8>)
    ensures
        asked(empty_form()) is Err,
        asked(
            with_file(
                with_file(empty_form(), FieldKind::CurrentWasm, current),
                FieldKind::BaseWasm,
                base,
            ),
        ) == Ok::<InputView, Seq<char>>(InputView::LocalVsLocal { current, base }),
        empty_form().mode is None && empty_form().contract_id is None
            && empty_form().function_name is None && empty_form().args.len() == 0,
{
}

/// A form stands for what its fields hold.
pub proof fn law_forms_stand_for_their_fields(form: CompareForm)
    ensures
        form.mode is None <==> form@.mode is None,
        form.mode matches Some(text) ==> form@.mode == Some(text@),
        form.current_wasm is None <==> form@.current_wasm is None,
        form.current_wasm matches Some(bytes) ==> form@.current_wasm == Some(bytes@),
        form.base_wasm is None <==> form@.base_wasm is None,
        form.base_wasm matches Some(bytes) ==> form@.base_wasm == Some(bytes@),
        form.contract_id is None <==> form@.contract_id is None,
        form.contract_id matches Some(text) ==> form@.contract_id == Some(text@),
        form.function_name is None <==> form@.function_name is None,
        form.function_name matches Some(text) ==> form@.function_name == Some(text@),
        jobs::are_texts(Some(form.args), Some(form@.args)),
{
}

/// What is asked for stands for what its fields hold.
pub proof fn law_inputs_stand_for_their_fields(input: CompareInput)
    ensures
        input matches CompareInput::LocalVsLocal { current, base } ==> input@ == (
        InputView::LocalVsLocal { current: current@, base: base@ }),
        input matches CompareInput::LocalVsDeployed { current, contract_id, function_name, args }
            ==> input@ matches InputView::LocalVsDeployed {
            current: bytes,
            contract_id: id,
            function_name: name,
            args: texts,
        } && bytes == current@ && id == contract_id@ && name == function_name@ && jobs::are_texts(
            Some(args),
            Some(texts),
        ),
{
}

/// What cannot be read or stored is said of by its field or its step.
pub proof fn law_failures_are_named()
    ensures
        unreadable(FieldKind::Mode) == "Invalid mode field: "@,
        unreadable(FieldKind::CurrentWasm) == "Failed to read current_wasm: "@,
        unreadable(FieldKind::BaseWasm) == "Failed to read base_wasm: "@,
        unreadable(FieldKind::ContractId) == "Invalid contract_id: "@,
        unreadable(FieldKind::FunctionName) == "Invalid function_name: "@,
        unreadable(FieldKind::Args) == "Invalid args: "@,
        unreadable(FieldKind::Unknown) == "Failed to read multipart field: "@,
        step_failure(FileStep::Create) == "Failed to create temp file: "@,
        step_failure(FileStep::Write) == "Failed to write temp file: "@,
        step_failure(FileStep::Persist) == "Failed to persist temp file: "@,
{
}

} // verus!
