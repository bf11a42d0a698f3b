//! Inputs of the pager: files, standard input and other readers, each with
//! a description that names it to the user.

use vstd::prelude::*;
use vstd::string::*;
use crate::error::Error;
use crate::reader::read_ahead;
use crate::text::{push_str, lowercased, to_lowercase};

verus! {

/// What is known of an input besides its contents.
#[derive(Debug)]
pub struct InputMetadata {
    pub user_provided_name: Option<String>,
    pub size: Option<u64>,
}

/// An optional string as an optional sequence of characters.
pub open spec fn opt_view(o: Option<String>) -> Option<Seq<char>> {
    match o {
        Some(s) => Some(s@),
        None => None,
    }
}

/// Metadata as plain values.
pub struct MetadataModel {
    pub user_provided_name: Option<Seq<char>>,
    pub size: Option<u64>,
}

impl View for InputMetadata {
    type V = MetadataModel;

    open spec fn view(&self) -> MetadataModel {
        MetadataModel { user_provided_name: opt_view(self.user_provided_name), size: self.size }
    }
}

impl Clone for InputMetadata {
    fn clone(&self) -> (m: Self)
        ensures
            m@ == self@,
    {
        InputMetadata { user_provided_name: self.user_provided_name.clone(), size: self.size }
    }
}

impl Default for InputMetadata {
    fn default() -> (m: Self)
        ensures
            m@ == (MetadataModel { user_provided_name: None, size: None }),
    {
        InputMetadata { user_provided_name: None, size: None }
    }
}

/// How an input is named to the user.
#[derive(Debug)]
pub struct InputDescription {
    pub name: String,
    title: Option<String>,
    kind: Option<String>,
    summary: Option<String>,
}

/// A description as plain values.
pub struct DescriptionModel {
    pub name: Seq<char>,
    pub title: Option<Seq<char>>,
    pub kind: Option<Seq<char>>,
    pub summary: Option<Seq<char>>,
}

impl View for InputDescription {
    type V = DescriptionModel;

    closed spec fn view(&self) -> DescriptionModel {
        DescriptionModel {
            name: self.name@,
            title: opt_view(self.title),
            kind: opt_view(self.kind),
            summary: opt_view(self.summary),
        }
    }
}

/// A description with only a name.
pub open spec fn named_description(name: Seq<char>) -> DescriptionModel {
    DescriptionModel { name, title: None, kind: None, summary: None }
}

/// The summary of a description with no summary of its own: the name, or
/// with a kind, the kind in lower case, a space and the name in quotes.
pub open spec fn summary_of(d: DescriptionModel) -> Seq<char> {
    match d.summary {
        Some(s) => s,
        None => match d.kind {
            None => d.name,
            Some(k) => lowercased(k) + " '"@ + d.name + "'"@,
        },
    }
}

/// Joins a kind (already in lower case) and a name as `kind 'name'`.
pub fn kind_and_name(lowered_kind: &str, name: &str) -> (s: String)
    ensures
        s@ == lowered_kind@ + " '"@ + name@ + "'"@,
{
    let mut s = String::new();
    push_str(&mut s, lowered_kind);
    push_str(&mut s, " '");
    push_str(&mut s, name);
    push_str(&mut s, "'");
    s
}

fn clone_opt(o: &Option<String>) -> (c: Option<String>)
    ensures
        opt_view(c) == opt_view(*o),
{
    match o {
        Some(s) => Some(s.clone()),
        None => None,
    }
}

impl Clone for InputDescription {
    fn clone(&self) -> (d: Self)
        ensures
            d@ == self@,
    {
        InputDescription {
            name: self.name.clone(),
            title: clone_opt(&self.title),
            kind: clone_opt(&self.kind),
            summary: clone_opt(&self.summary),
        }
    }
}

impl InputDescription {
    pub fn new(name: &str) -> (d: Self)
        ensures
            d@ == named_description(name@),
    {
        InputDescription { name: name.to_string(), title: None, kind: None, summary: None }
    }

    pub fn set_kind(&mut self, kind: Option<String>)
        ensures
            final(self)@ == (DescriptionModel { kind: opt_view(kind), ..old(self)@ }),
    {
        self.kind = kind;
    }

    pub fn set_summary(&mut self, summary: Option<String>)
        ensures
            final(self)@ == (DescriptionModel { summary: opt_view(summary), ..old(self)@ }),
    {
        self.summary = summary;
    }

    pub fn set_title(&mut self, title: Option<String>)
        ensures
            final(self)@ == (DescriptionModel { title: opt_view(title), ..old(self)@ }),
    {
        self.title = title;
    }

    /// The title, or the name where there is none.
    pub fn title(&self) -> (t: &String)
        ensures
            t@ == match self@.title {
                Some(t) => t,
                None => self@.name,
            },
    {
        match &self.title {
            Some(title) => title,
            None => &self.name,
        }
    }

    pub fn kind(&self) -> (k: Option<&String>)
        ensures
            match k {
                Some(s) => self@.kind == Some(s@),
                None => self@.kind is None,
            },
    {
        match &self.kind {
            Some(k) => Some(k),
            None => None,
        }
    }

    /// The summary; see `summary_of`.
    pub fn summary(&self) -> (s: String)
        ensures
            s@ == summary_of(self@),
    {
        match &self.summary {
            Some(s) => s.clone(),
            None => match &self.kind {
                None => self.name.clone(),
                Some(kind) => {
                    let lowered = to_lowercase(kind.as_str());
                    kind_and_name(lowered.as_str(), self.name.as_str())
                },
            },
        }
    }
}

/// Where an input's bytes come from.
#[derive(Debug)]
pub enum InputKind<R> {
    OrdinaryFile(String),
    StdIn,
    CustomReader(R),
}

/// The source of an input as a plain value.
pub enum KindModel {
    OrdinaryFile(Seq<char>),
    StdIn,
    CustomReader,
}

impl<R> View for InputKind<R> {
    type V = KindModel;

    open spec fn view(&self) -> KindModel {
        match self {
            InputKind::OrdinaryFile(p) => KindModel::OrdinaryFile(p@),
            InputKind::StdIn => KindModel::StdIn,
            InputKind::CustomReader(_) => KindModel::CustomReader,
        }
    }
}

/// The description an input of kind `k` starts with: a file by its path,
/// standard input as `STDIN`, another reader as `READER`.
pub open spec fn kind_description(k: KindModel) -> DescriptionModel {
    match k {
        KindModel::OrdinaryFile(p) => named_description(p),
        KindModel::StdIn => named_description("STDIN"@),
        KindModel::CustomReader => named_description("READER"@),
    }
}

impl<R> InputKind<R> {
    pub fn description(&self) -> (d: InputDescription)
        ensures
            d@ == kind_description(self@),
    {
        match self {
            InputKind::OrdinaryFile(path) => InputDescription::new(path.as_str()),
            InputKind::StdIn => InputDescription::new("STDIN"),
            InputKind::CustomReader(_) => InputDescription::new("READER"),
        }
    }
}

/// One input of the pager.
#[derive(Debug)]
pub struct Input<R> {
    pub kind: InputKind<R>,
    pub metadata: InputMetadata,
    pub description: InputDescription,
}

/// An input as plain values.
pub struct InputModel {
    pub kind: KindModel,
    pub metadata: MetadataModel,
    pub description: DescriptionModel,
}

impl<R> View for Input<R> {
    type V = InputModel;

    open spec fn view(&self) -> InputModel {
        InputModel { kind: self.kind@, metadata: self.metadata@, description: self.description@ }
    }
}

/// A fresh input of kind `k` whose size is `size`.
pub open spec fn fresh_input(k: KindModel, size: Option<u64>) -> InputModel {
    InputModel {
        kind: k,
        metadata: MetadataModel { user_provided_name: None, size },
        description: kind_description(k),
    }
}

/// `i` under the name the user gave: the description's name becomes the
/// given name, which is also recorded; `None` keeps the name and records
/// none.
pub open spec fn renamed(i: InputModel, provided: Option<Seq<char>>) -> InputModel {
    InputModel {
        description: match provided {
            Some(n) => DescriptionModel { name: n, ..i.description },
            None => i.description,
        },
        metadata: MetadataModel { user_provided_name: provided, ..i.metadata },
        ..i
    }
}

/// `i` under the name the user gave, if any, and then of kind `File`.
pub open spec fn named_input(i: InputModel, name: Option<Seq<char>>) -> InputModel {
    match name {
        Some(n) => {
            let r = renamed(i, Some(n));
            InputModel { description: DescriptionModel { kind: Some("File"@), ..r.description }, ..r }
        },
        None => i,
    }
}

/// The input for standard input, named as the user said.
pub open spec fn stdin_input(name: Option<Seq<char>>) -> InputModel {
    named_input(fresh_input(KindModel::StdIn, None), name)
}

/// The input for the file `path` of `size` bytes, named as the user said,
/// or else by its path.
pub open spec fn file_input(path: Seq<char>, size: Option<u64>, name: Option<Seq<char>>) -> InputModel {
    named_input(
        fresh_input(KindModel::OrdinaryFile(path), size),
        match name {
            Some(n) => Some(n),
            None => Some(path),
        },
    )
}

fn opt_str(o: Option<&str>) -> (c: Option<String>)
    ensures
        opt_view(c) == match o {
            Some(s) => Some(s@),
            None => None::<Seq<char>>,
        },
{
    match o {
        Some(s) => Some(s.to_string()),
        None => None,
    }
}

impl<R> Input<R> {
    /// The file at `path`; `size` is its length in bytes as the file
    /// system reports it, if it does.
    pub fn ordinary_file(path: &str, size: Option<u64>) -> (i: Self)
        ensures
            i@ == fresh_input(KindModel::OrdinaryFile(path@), size),
    {
        let kind = InputKind::OrdinaryFile(path.to_string());
        let metadata = InputMetadata { size, user_provided_name: None };
        Input { description: kind.description(), metadata, kind }
    }

    pub fn stdin() -> (i: Self)
        ensures
            i@ == fresh_input(KindModel::StdIn, None),
    {
        let kind = InputKind::StdIn;
        Input { description: kind.description(), metadata: InputMetadata::default(), kind }
    }

    pub fn from_reader(reader: R) -> (i: Self)
        ensures
            i@ == fresh_input(KindModel::CustomReader, None),
            i.kind == InputKind::CustomReader(reader),
    {
        let kind = InputKind::CustomReader(reader);
        Input { description: kind.description(), metadata: InputMetadata::default(), kind }
    }

    pub fn is_stdin(&self) -> (b: bool)
        ensures
            b == (self.kind is StdIn),
    {
        match self.kind {
            InputKind::StdIn => true,
            _ => false,
        }
    }

    /// The input under the name the user gave; see `renamed`.
    pub fn with_name(self, provided_name: Option<&str>) -> (i: Self)
        ensures
            i@ == renamed(self@, match provided_name {
                Some(s) => Some(s@),
                None => None::<Seq<char>>,
            }),
            i.kind == self.kind,
    {
        let mut input = self;
        if let Some(name) = provided_name {
            input.description.name = name.to_string();
        }
        input.metadata.user_provided_name = opt_str(provided_name);
        input
    }

    pub fn description(&self) -> (d: &InputDescription)
        ensures
            d@ == self@.description,
    {
        &self.description
    }

    pub fn description_mut(&mut self) -> (d: &mut InputDescription)
        ensures
            *d == old(self).description,
            final(self)@ == (InputModel { description: final(d)@, ..old(self)@ }),
            final(self).kind == old(self).kind,
    {
        &mut self.description
    }
}

/// The input `input` under the name the user gave, if any, and then of
/// kind `File`.
pub fn named<R>(input: Input<R>, name: Option<&str>) -> (i: Input<R>)
    ensures
        i@ == named_input(input@, match name {
            Some(s) => Some(s@),
            None => None::<Seq<char>>,
        }),
        i.kind == input.kind,
{
    if let Some(provided_name) = name {
        let mut input = input.with_name(Some(provided_name));
        input.description_mut().set_kind(Some("File".to_string()));
        input
    } else {
        input
    }
}

/// Standard input, named as the user said.
pub fn new_stdin_input<R>(name: Option<&str>) -> (i: Input<R>)
    ensures
        i@ == stdin_input(match name {
            Some(s) => Some(s@),
            None => None::<Seq<char>>,
        }),
{
    named(Input::stdin(), name)
}

/// The file `file` of `size` bytes, named as the user said, or by its path.
pub fn new_file_input<R>(file: &str, name: Option<&str>, size: Option<u64>) -> (i: Input<R>)
    ensures
        i@ == file_input(file@, size, match name {
            Some(s) => Some(s@),
            None => None::<Seq<char>>,
        }),
{
    let given = match name {
        Some(n) => Some(n),
        None => Some(file),
    };
    named(Input::ordinary_file(file, size), given)
}

/// The name the user gave to the `i`-th input, if any.
pub open spec fn provided_name(filenames: Option<Seq<Seq<char>>>, i: int) -> Option<Seq<char>> {
    match filenames {
        Some(v) => if 0 <= i < v.len() { Some(v[i]) } else { None },
        None => None,
    }
}

/// The names given for the inputs, as plain values.
pub open spec fn names_view(filenames: Option<Vec<String>>) -> Option<Seq<Seq<char>>> {
    match filenames {
        Some(v) => Some(v@.map_values(|s: String| s@)),
        None => None,
    }
}

/// File arguments as plain values: each path with its size.
pub open spec fn files_view(files: Seq<(String, Option<u64>)>) -> Seq<(Seq<char>, Option<u64>)> {
    files.map_values(|f: (String, Option<u64>)| (f.0@, f.1))
}

/// The input that the file argument `f` names: `-` is standard input.
pub open spec fn argument_input(f: (Seq<char>, Option<u64>), name: Option<Seq<char>>) -> InputModel {
    if f.0 == seq!['-'] {
        stdin_input(name)
    } else {
        file_input(f.0, f.1, name)
    }
}

fn is_dash(s: &str) -> (b: bool)
    ensures
        b == (s@ == seq!['-']),
{
    if s.unicode_len() == 1 {
        let c = s.get_char(0);
        assert(s@ =~= seq![c]);
        c == '-'
    } else {
        false
    }
}

/// The inputs that the command line names. `files` are the file arguments
/// (with their sizes where the file system reports them), `filenames` the
/// names to show for them. Without files, standard input is read under the
/// first name given; otherwise each file argument is an input, `-` being
/// standard input, under the name given at the same place. Names and files
/// must then be as many.
pub fn collect_inputs<R>(filenames: Option<Vec<String>>, files: Option<Vec<(String, Option<u64>)>>) -> (r: Result<Vec<Input<R>>, Error>)
    ensures
        ({
            let names = names_view(filenames);
            match files {
                Some(fs) if filenames is Some && filenames->0.len() != fs.len() =>
                    r matches Err(Error::Msg(m)) && m@ == "Must be one file name per input type."@,
                None => r matches Ok(v) && v@.len() == 1 && v@[0]@ == stdin_input(provided_name(names, 0)),
                Some(fs) => r matches Ok(v) && v@.len() == fs.len() && forall|i: int| 0 <= i < fs.len()
                    ==> (#[trigger] v@[i])@ == argument_input(files_view(fs@)[i], provided_name(names, i)),
            }
        }),
{
    let ghost names = names_view(filenames);
    match &files {
        Some(fs) => {
            match &filenames {
                Some(ns) => {
                    if ns.len() != fs.len() {
                        return Err(Error::msg("Must be one file name per input type."));
                    }
                },
                None => {},
            }
            let mut result: Vec<Input<R>> = Vec::new();
            let mut i: usize = 0;
            while i < fs.len()
                invariant
                    i <= fs.len(),
                    files == Some(*fs),
                    filenames is Some ==> filenames->0.len() == fs.len(),
                    names == names_view(filenames),
                    result@.len() == i,
                    forall|k: int| 0 <= k < i ==> (#[trigger] result@[k])@ == argument_input(files_view(fs@)[k], provided_name(names, k)),
                decreases fs.len() - i,
            {
                let name: Option<&str> = match &filenames {
                    Some(ns) => Some(ns[i].as_str()),
                    None => None,
                };
                assert(match name { Some(s) => Some(s@), None => None::<Seq<char>> } == provided_name(names, i as int));
                let path = fs[i].0.as_str();
                let input = if is_dash(path) {
                    new_stdin_input(name)
                } else {
                    new_file_input(path, name, fs[i].1)
                };
                assert(files_view(fs@)[i as int] == (path@, fs@[i as int].1));
                result.push(input);
                i = i + 1;
            }
            Ok(result)
        },
        None => {
            let name: Option<&str> = match &filenames {
                Some(ns) => if ns.len() > 0 { Some(ns[0].as_str()) } else { None },
                None => None,
            };
            assert(match name { Some(s) => Some(s@), None => None::<Seq<char>> } == provided_name(names, 0));
            let mut result: Vec<Input<R>> = Vec::new();
            result.push(new_stdin_input(name));
            Ok(result)
        },
    }
}

/// What an input was opened as.
#[derive(Debug)]
pub enum OpenedInputKind {
    OrdinaryFile(String),
    StdIn,
    CustomReader,
}

/// The kind of an opened input as a plain value.
pub open spec fn opened_kind_view(k: OpenedInputKind) -> KindModel {
    match k {
        OpenedInputKind::OrdinaryFile(p) => KindModel::OrdinaryFile(p@),
        OpenedInputKind::StdIn => KindModel::StdIn,
        OpenedInputKind::CustomReader => KindModel::CustomReader,
    }
}

/// An input ready to be read.
pub struct OpenedInput<B> {
    pub kind: OpenedInputKind,
    pub metadata: InputMetadata,
    pub reader: crate::reader::InputReader<B>,
    pub description: InputDescription,
}

/// How opening an input of kind `k` ends, given whether it is a directory
/// and what checking it against standard output gave (`None` when there
/// was nothing to check against): a directory or an input that is also the
/// output is refused with a message, an error from the check is passed on.
pub enum OpenVerdict {
    Opened(KindModel),
    Refused(Seq<char>),
    CheckFailed,
}

pub open spec fn open_verdict(k: KindModel, is_dir: bool, stdout_check: Option<Result<bool, Error>>) -> OpenVerdict {
    match k {
        KindModel::StdIn => match stdout_check {
            Some(Err(_)) => OpenVerdict::CheckFailed,
            Some(Ok(true)) => OpenVerdict::Refused(
                "IO circle detected. The input from stdin is also an output. Aborting to avoid infinite loop."@,
            ),
            _ => OpenVerdict::Opened(KindModel::StdIn),
        },
        KindModel::OrdinaryFile(p) => if is_dir {
            OpenVerdict::Refused("'"@ + p + "' is a directory."@)
        } else {
            match stdout_check {
                Some(Err(_)) => OpenVerdict::CheckFailed,
                Some(Ok(true)) => OpenVerdict::Refused(
                    "IO circle detected. The input from '"@ + p
                        + "' is also an output. Aborting to avoid infinite loop."@,
                ),
                _ => OpenVerdict::Opened(KindModel::OrdinaryFile(p)),
            }
        },
        KindModel::CustomReader => OpenVerdict::Opened(KindModel::CustomReader),
    }
}

fn quoted(before: &str, path: &str, after: &str) -> (s: String)
    ensures
        s@ == before@ + path@ + after@,
{
    let mut s = String::new();
    push_str(&mut s, before);
    push_str(&mut s, path);
    push_str(&mut s, after);
    s
}

impl<R> Input<R> {
    /// Decides whether this input can be opened; see `open_verdict`. The
    /// caller has opened the input and found whether it is a directory, and
    /// checked it against standard output.
    pub fn open_kind(&self, is_dir: bool, stdout_check: Option<Result<bool, Error>>) -> (r: Result<OpenedInputKind, Error>)
        ensures
            match open_verdict(self.kind@, is_dir, stdout_check) {
                OpenVerdict::Opened(k) => r matches Ok(o) && opened_kind_view(o) == k,
                OpenVerdict::Refused(m) => r matches Err(Error::Msg(t)) && t@ == m,
                OpenVerdict::CheckFailed => stdout_check matches Some(Err(e)) && r == Err::<OpenedInputKind, Error>(e),
            },
    {
        match &self.kind {
            InputKind::StdIn => match stdout_check {
                Some(Err(e)) => Err(e),
                Some(Ok(true)) => Err(Error::msg(
                    "IO circle detected. The input from stdin is also an output. Aborting to avoid infinite loop.",
                )),
                _ => Ok(OpenedInputKind::StdIn),
            },
            InputKind::OrdinaryFile(path) => {
                if is_dir {
                    return Err(Error::Msg(quoted("'", path.as_str(), "' is a directory.")));
                }
                match stdout_check {
                    Some(Err(e)) => Err(e),
                    Some(Ok(true)) => Err(Error::Msg(quoted(
                        "IO circle detected. The input from '",
                        path.as_str(),
                        "' is also an output. Aborting to avoid infinite loop.",
                    ))),
                    _ => Ok(OpenedInputKind::OrdinaryFile(path.clone())),
                }
            },
            InputKind::CustomReader(_) => Ok(OpenedInputKind::CustomReader),
        }
    }
}

/// The message for an input whose source could not be had: for a file, its
/// path in quotes before the reason.
pub open spec fn unopened_message(k: KindModel, reason: Seq<char>) -> Seq<char> {
    match k {
        KindModel::OrdinaryFile(p) => "'"@ + p + "': "@ + reason,
        _ => reason,
    }
}

impl<R> Input<R> {
    /// Opens this input on `source`, the reader that the caller got for it
    /// (a file opened, standard input, or the input's own reader), or the
    /// reason why there is none. A missing source is refused with
    /// `unopened_message`; otherwise `open_verdict` decides, as
    /// `open_kind` does, and an opened input keeps this input's
    /// description and metadata and reads its first line ahead.
    pub fn open<B: std::io::BufRead>(
        self,
        source: Result<B, String>,
        is_dir: bool,
        stdout_check: Option<Result<bool, Error>>,
    ) -> (r: Result<OpenedInput<B>, Error>)
        ensures
            source matches Err(reason) ==> r matches Err(Error::Msg(t)) && t@ == unopened_message(
                self@.kind,
                reason@,
            ),
            source is Ok ==> match open_verdict(self@.kind, is_dir, stdout_check) {
                OpenVerdict::Opened(k) => r matches Ok(o) && {
                    &&& opened_kind_view(o.kind) == k
                    &&& o.description@ == self@.description
                    &&& o.metadata@ == self@.metadata
                    &&& read_ahead(o.reader.first_line@, o.reader.content_type)
                },
                OpenVerdict::Refused(m) => r matches Err(Error::Msg(t)) && t@ == m,
                OpenVerdict::CheckFailed => stdout_check matches Some(Err(e)) && r matches Err(f) && f == e,
            },
    {
        let reader = match source {
            Ok(b) => b,
            Err(reason) => {
                let message = match &self.kind {
                    InputKind::OrdinaryFile(path) => {
                        let mut m = quoted("'", path.as_str(), "': ");
                        push_str(&mut m, reason.as_str());
                        m
                    },
                    _ => reason,
                };
                return Err(Error::Msg(message));
            },
        };
        let kind = match self.open_kind(is_dir, stdout_check) {
            Ok(k) => k,
            Err(e) => return Err(e),
        };
        let Input { kind: _, metadata, description } = self;
        Ok(OpenedInput { kind, metadata, description, reader: crate::reader::InputReader::new(reader) })
    }
}

impl<B> OpenedInput<B> {
    /// The path to show for the input: the name the user gave, else a
    /// file's path.
    pub fn path(&self) -> (p: Option<&String>)
        ensures
            match p {
                Some(s) => s@ == match self.metadata@.user_provided_name {
                    Some(n) => n,
                    None => self.kind->OrdinaryFile_0@,
                } && (self.metadata@.user_provided_name is Some || self.kind is OrdinaryFile),
                None => self.metadata@.user_provided_name is None && !(self.kind is OrdinaryFile),
            },
    {
        match &self.metadata.user_provided_name {
            Some(n) => Some(n),
            None => match &self.kind {
                OpenedInputKind::OrdinaryFile(path) => Some(path),
                _ => None,
            },
        }
    }
}

} // verus!
