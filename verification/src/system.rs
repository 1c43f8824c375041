//! What the switcher asks of the operating system, and what it is told.
//!
//! The switcher itself touches nothing. It names the next [`Action`]; whoever runs it performs the
//! action, records the [`Reply`] in a [`Transcript`] and asks again. A procedure is a function of
//! the transcript: it reads the replies that it has been given from some place on, and either
//! finishes with a value and the place where it stopped reading, or names the action whose reply
//! is missing.
use vstd::pervasive::unreached;
use vstd::prelude::*;

use crate::digits;
use crate::text;

verus! {

/// What the switcher tells apart in a failed operation.
#[derive(Debug, Copy, Clone, PartialEq, Eq, Structural)]
pub enum IoErrorKind {
    AlreadyExists,
    Other,
}

/// A failed operation. Whoever performed it keeps the full error under `ticket`.
#[derive(Debug, Copy, Clone, PartialEq, Eq, Structural)]
pub struct IoError {
    pub kind: IoErrorKind,
    pub ticket: u64,
}

impl DeepView for IoError {
    type V = IoError;

    open spec fn deep_view(&self) -> IoError {
        *self
    }
}

/// How a program ended.
#[derive(Debug, Copy, Clone, PartialEq, Eq, Structural)]
pub enum ExitStatus {
    Success,
    Code(i32),
}

impl DeepView for ExitStatus {
    type V = ExitStatus;

    open spec fn deep_view(&self) -> ExitStatus {
        *self
    }
}

/// Where listing the PCI devices of the device manager failed.
#[derive(Debug, Copy, Clone, PartialEq, Eq, Structural)]
pub enum PCIEnumerationError {
    Udev(IoError),
    Subsystem(IoError),
    DeviceScan(IoError),
}

impl DeepView for PCIEnumerationError {
    type V = PCIEnumerationError;

    open spec fn deep_view(&self) -> PCIEnumerationError {
        *self
    }
}

/// A PCI device as the device manager lists it: the properties `PCI_SLOT_NAME` and `PCI_ID`.
#[derive(Debug)]
pub struct UdevDevice {
    pub slot_name: Option<String>,
    pub pci_id: Option<String>,
}

/// The view of a [`UdevDevice`].
pub struct UdevDeviceView {
    pub slot_name: Option<Seq<char>>,
    pub pci_id: Option<Seq<char>>,
}

impl DeepView for UdevDevice {
    type V = UdevDeviceView;

    open spec fn deep_view(&self) -> UdevDeviceView {
        UdevDeviceView {
            slot_name: self.slot_name.deep_view(),
            pci_id: self.pci_id.deep_view(),
        }
    }
}

/// A process that holds a file open.
#[derive(Debug)]
pub struct Holder {
    pub pid: String,
    pub name: Option<String>,
}

/// The view of a [`Holder`].
pub struct HolderView {
    pub pid: Seq<char>,
    pub name: Option<Seq<char>>,
}

impl DeepView for Holder {
    type V = HolderView;

    open spec fn deep_view(&self) -> HolderView {
        HolderView { pid: self.pid@, name: self.name.deep_view() }
    }
}

/// One thing for the operating system to do.
#[derive(Debug, PartialEq, Eq)]
pub enum Action {
    /// Replace what the file holds.
    Write { path: String, contents: String },
    /// Read the whole file.
    Read { path: String },
    /// List the names in a directory, up to the first that cannot be read.
    List { path: String },
    /// See whether the path exists.
    Exists { path: String },
    Rename { from: String, to: String },
    /// Follow all links of the path.
    Resolve { path: String },
    /// Run a program for its exit status.
    Run { program: String, args: Vec<String> },
    /// Run a program for what it writes to its standard error.
    RunForErrors { program: String, args: Vec<String> },
    /// List the PCI devices that the device manager knows.
    ScanPci,
    /// List the processes that hold the file open.
    ListHolders { path: String },
    /// Send the process the signal that ends it.
    Kill { pid: i32 },
    Sleep { millis: u64 },
}

/// The view of an [`Action`].
#[verifier::ext_equal]
pub enum ActionView {
    Write { path: Seq<char>, contents: Seq<char> },
    Read { path: Seq<char> },
    List { path: Seq<char> },
    Exists { path: Seq<char> },
    Rename { from: Seq<char>, to: Seq<char> },
    Resolve { path: Seq<char> },
    Run { program: Seq<char>, args: Seq<Seq<char>> },
    RunForErrors { program: Seq<char>, args: Seq<Seq<char>> },
    ScanPci,
    ListHolders { path: Seq<char> },
    Kill { pid: i32 },
    Sleep { millis: u64 },
}

impl DeepView for Action {
    type V = ActionView;

    open spec fn deep_view(&self) -> ActionView {
        match self {
            Action::Write { path, contents } => ActionView::Write {
                path: path@,
                contents: contents@,
            },
            Action::Read { path } => ActionView::Read { path: path@ },
            Action::List { path } => ActionView::List { path: path@ },
            Action::Exists { path } => ActionView::Exists { path: path@ },
            Action::Rename { from, to } => ActionView::Rename { from: from@, to: to@ },
            Action::Resolve { path } => ActionView::Resolve { path: path@ },
            Action::Run { program, args } => ActionView::Run {
                program: program@,
                args: args.deep_view(),
            },
            Action::RunForErrors { program, args } => ActionView::RunForErrors {
                program: program@,
                args: args.deep_view(),
            },
            Action::ScanPci => ActionView::ScanPci,
            Action::ListHolders { path } => ActionView::ListHolders { path: path@ },
            Action::Kill { pid } => ActionView::Kill { pid: *pid },
            Action::Sleep { millis } => ActionView::Sleep { millis: *millis },
        }
    }
}

/// What came of an action.
#[derive(Debug)]
pub enum Reply {
    /// To `Write` and `Rename`.
    Done(Result<(), IoError>),
    /// To `Read`, `Resolve` and `RunForErrors`.
    Text(Result<String, IoError>),
    /// To `List`.
    Names(Result<Vec<String>, IoError>),
    /// To `Exists`.
    Present(bool),
    /// To `Run`.
    Exit(Result<ExitStatus, IoError>),
    /// To `ScanPci`.
    Devices(Result<Vec<UdevDevice>, PCIEnumerationError>),
    /// To `ListHolders`; nothing if the processes could not be listed.
    Holders(Option<Vec<Holder>>),
    /// To `Kill`: the value that the system call returned.
    Killed(i32),
    /// To `Sleep`.
    Elapsed,
}

/// The view of a [`Reply`].
pub enum ReplyView {
    Done(Result<(), IoError>),
    Text(Result<Seq<char>, IoError>),
    Names(Result<Seq<Seq<char>>, IoError>),
    Present(bool),
    Exit(Result<ExitStatus, IoError>),
    Devices(Result<Seq<UdevDeviceView>, PCIEnumerationError>),
    Holders(Option<Seq<HolderView>>),
    Killed(i32),
    Elapsed,
}

/// The view of a result, from those of its value and its error.
pub open spec fn result_view<T: DeepView, E: DeepView>(r: Result<T, E>) -> Result<T::V, E::V> {
    match r {
        Ok(v) => Ok(v.deep_view()),
        Err(e) => Err(e.deep_view()),
    }
}

impl DeepView for Reply {
    type V = ReplyView;

    open spec fn deep_view(&self) -> ReplyView {
        match self {
            Reply::Done(r) => ReplyView::Done(*r),
            Reply::Text(r) => ReplyView::Text(result_view(*r)),
            Reply::Names(r) => ReplyView::Names(result_view(*r)),
            Reply::Present(b) => ReplyView::Present(*b),
            Reply::Exit(r) => ReplyView::Exit(*r),
            Reply::Devices(r) => ReplyView::Devices(result_view(*r)),
            Reply::Holders(h) => ReplyView::Holders(h.deep_view()),
            Reply::Killed(n) => ReplyView::Killed(*n),
            Reply::Elapsed => ReplyView::Elapsed,
        }
    }
}

/// The process id that `pid` spells, as the system call takes it: 32 bits with a sign.
pub open spec fn process_id(pid: Seq<char>) -> Option<i32> {
    match digits::number(pid, u32::MAX as nat) {
        Some(n) => Some(
            if n < 0x8000_0000 {
                n as i32
            } else {
                (n - 0x1_0000_0000) as i32
            },
        ),
        None => None,
    }
}

/// Whether `reply` says what came of `action`.
///
/// A resolved path ends in a name, and a list of processes has a number for each.
pub open spec fn answers(action: ActionView, reply: ReplyView) -> bool {
    match action {
        ActionView::Write { .. } => reply is Done,
        ActionView::Rename { .. } => reply is Done,
        ActionView::Read { .. } => reply is Text,
        ActionView::RunForErrors { .. } => reply is Text,
        ActionView::Resolve { .. } => match reply {
            ReplyView::Text(Ok(path)) => text::last_component(path).len() > 0,
            ReplyView::Text(Err(_)) => true,
            _ => false,
        },
        ActionView::List { .. } => reply is Names,
        ActionView::Exists { .. } => reply is Present,
        ActionView::Run { .. } => reply is Exit,
        ActionView::ScanPci => reply is Devices,
        ActionView::ListHolders { .. } => match reply {
            ReplyView::Holders(Some(list)) => forall|i: int|
                0 <= i < list.len() ==> process_id(#[trigger] list[i].pid) is Some,
            ReplyView::Holders(None) => true,
            _ => false,
        },
        ActionView::Kill { .. } => reply is Killed,
        ActionView::Sleep { .. } => reply is Elapsed,
    }
}

/// Where a procedure stands: at the action whose reply it needs, or done, with its value and the
/// place in the transcript up to which it has read.
pub type Step<T> = Result<(T, int), ActionView>;

/// What a procedure returns when it runs; see [`Step`].
pub type Progress<T> = Result<(T, usize), Action>;

/// Whether a procedure stands at `action`.
pub open spec fn awaits<T>(step: Step<T>, action: ActionView) -> bool {
    step matches Err(awaited) && awaited == action
}

/// The view of a [`Progress`].
pub open spec fn step_view<T: DeepView>(p: Progress<T>) -> Step<T::V> {
    match p {
        Ok((v, n)) => Ok((v.deep_view(), n as int)),
        Err(action) => Err(action.deep_view()),
    }
}

/// The view of a [`Progress`] whose value is itself a result.
pub open spec fn outcome_view<T: DeepView, E: DeepView>(p: Progress<Result<T, E>>) -> Step<
    Result<T::V, E::V>,
> {
    match p {
        Ok((v, n)) => Ok((result_view(v), n as int)),
        Err(action) => Err(action.deep_view()),
    }
}

/// The reply to `action`, which stands at `at` in the transcript or is still to come.
pub open spec fn ask(t: Seq<ReplyView>, at: int, action: ActionView) -> Step<ReplyView> {
    if 0 <= at < t.len() && answers(action, t[at]) {
        Ok((t[at], at + 1))
    } else {
        Err(action)
    }
}

pub open spec fn write(
    t: Seq<ReplyView>,
    at: int,
    path: Seq<char>,
    contents: Seq<char>,
) -> Step<Result<(), IoError>> {
    match ask(t, at, ActionView::Write { path, contents }) {
        Ok((reply, n)) => Ok((reply->Done_0, n)),
        Err(action) => Err(action),
    }
}

pub open spec fn rename(t: Seq<ReplyView>, at: int, from: Seq<char>, to: Seq<char>) -> Step<
    Result<(), IoError>,
> {
    match ask(t, at, ActionView::Rename { from, to }) {
        Ok((reply, n)) => Ok((reply->Done_0, n)),
        Err(action) => Err(action),
    }
}

pub open spec fn read(t: Seq<ReplyView>, at: int, path: Seq<char>) -> Step<
    Result<Seq<char>, IoError>,
> {
    match ask(t, at, ActionView::Read { path }) {
        Ok((reply, n)) => Ok((reply->Text_0, n)),
        Err(action) => Err(action),
    }
}

pub open spec fn resolve(t: Seq<ReplyView>, at: int, path: Seq<char>) -> Step<
    Result<Seq<char>, IoError>,
> {
    match ask(t, at, ActionView::Resolve { path }) {
        Ok((reply, n)) => Ok((reply->Text_0, n)),
        Err(action) => Err(action),
    }
}

pub open spec fn list(t: Seq<ReplyView>, at: int, path: Seq<char>) -> Step<
    Result<Seq<Seq<char>>, IoError>,
> {
    match ask(t, at, ActionView::List { path }) {
        Ok((reply, n)) => Ok((reply->Names_0, n)),
        Err(action) => Err(action),
    }
}

pub open spec fn path_exists(t: Seq<ReplyView>, at: int, path: Seq<char>) -> Step<bool> {
    match ask(t, at, ActionView::Exists { path }) {
        Ok((reply, n)) => Ok((reply->Present_0, n)),
        Err(action) => Err(action),
    }
}

pub open spec fn run(
    t: Seq<ReplyView>,
    at: int,
    program: Seq<char>,
    args: Seq<Seq<char>>,
) -> Step<Result<ExitStatus, IoError>> {
    match ask(t, at, ActionView::Run { program, args }) {
        Ok((reply, n)) => Ok((reply->Exit_0, n)),
        Err(action) => Err(action),
    }
}

pub open spec fn run_for_errors(
    t: Seq<ReplyView>,
    at: int,
    program: Seq<char>,
    args: Seq<Seq<char>>,
) -> Step<Result<Seq<char>, IoError>> {
    match ask(t, at, ActionView::RunForErrors { program, args }) {
        Ok((reply, n)) => Ok((reply->Text_0, n)),
        Err(action) => Err(action),
    }
}

pub open spec fn scan_pci(t: Seq<ReplyView>, at: int) -> Step<
    Result<Seq<UdevDeviceView>, PCIEnumerationError>,
> {
    match ask(t, at, ActionView::ScanPci) {
        Ok((reply, n)) => Ok((reply->Devices_0, n)),
        Err(action) => Err(action),
    }
}

pub open spec fn list_holders(t: Seq<ReplyView>, at: int, path: Seq<char>) -> Step<
    Option<Seq<HolderView>>,
> {
    match ask(t, at, ActionView::ListHolders { path }) {
        Ok((reply, n)) => Ok((reply->Holders_0, n)),
        Err(action) => Err(action),
    }
}

pub open spec fn kill(t: Seq<ReplyView>, at: int, pid: i32) -> Step<i32> {
    match ask(t, at, ActionView::Kill { pid }) {
        Ok((reply, n)) => Ok((reply->Killed_0, n)),
        Err(action) => Err(action),
    }
}

pub open spec fn sleep(t: Seq<ReplyView>, at: int, millis: u64) -> Step<()> {
    match ask(t, at, ActionView::Sleep { millis }) {
        Ok((reply, n)) => Ok(((), n)),
        Err(action) => Err(action),
    }
}

impl Holder {
    /// The process id as the system call takes it.
    pub fn process_id(&self) -> (r: Option<i32>)
        ensures
            r == process_id(self.pid@),
    {
        match digits::parse_u32(self.pid.as_str()) {
            Some(n) => {
                if n < 0x8000_0000 {
                    Some(n as i32)
                } else {
                    Some((n as i64 - 0x1_0000_0000) as i32)
                }
            },
            None => None,
        }
    }
}

impl Action {
    /// Whether `reply` says what came of this action.
    pub fn answered_by(&self, reply: &Reply) -> (r: bool)
        ensures
            r == answers(self.deep_view(), reply.deep_view()),
    {
        match (self, reply) {
            (Action::Write { .. }, Reply::Done(_)) => true,
            (Action::Rename { .. }, Reply::Done(_)) => true,
            (Action::Read { .. }, Reply::Text(_)) => true,
            (Action::RunForErrors { .. }, Reply::Text(_)) => true,
            (Action::Resolve { .. }, Reply::Text(Ok(path))) => {
                text::file_name(path.as_str()).unicode_len() > 0
            },
            (Action::Resolve { .. }, Reply::Text(Err(_))) => true,
            (Action::List { .. }, Reply::Names(_)) => true,
            (Action::Exists { .. }, Reply::Present(_)) => true,
            (Action::Run { .. }, Reply::Exit(_)) => true,
            (Action::ScanPci, Reply::Devices(_)) => true,
            (Action::ListHolders { .. }, Reply::Holders(Some(list))) => all_numbered(list),
            (Action::ListHolders { .. }, Reply::Holders(None)) => true,
            (Action::Kill { .. }, Reply::Killed(_)) => true,
            (Action::Sleep { .. }, Reply::Elapsed) => true,
            _ => false,
        }
    }
}

/// Whether every process of the list has a number.
fn all_numbered(list: &Vec<Holder>) -> (r: bool)
    ensures
        r == forall|i: int|
            0 <= i < list.deep_view().len() ==> process_id(
                #[trigger] list.deep_view()[i].pid,
            ) is Some,
{
    let mut i: usize = 0;
    while i < list.len()
        invariant
            i <= list.len(),
            forall|j: int|
                0 <= j < i ==> process_id(#[trigger] list.deep_view()[j].pid) is Some,
        decreases list.len() - i,
    {
        if list[i].process_id().is_none() {
            assert(process_id(list.deep_view()[i as int].pid) is None);
            return false;
        }
        i = i + 1;
    }
    true
}

/// The replies that have been given so far, in order.
#[derive(Debug)]
pub struct Transcript {
    pub replies: Vec<Reply>,
}

impl View for Transcript {
    type V = Seq<ReplyView>;

    open spec fn view(&self) -> Seq<ReplyView> {
        self.replies.deep_view()
    }
}

impl Transcript {
    /// A transcript without replies.
    pub fn new() -> (r: Transcript)
        ensures
            r@ == Seq::<ReplyView>::empty(),
    {
        let r = Transcript { replies: Vec::new() };
        assert(r@ =~= Seq::<ReplyView>::empty());
        r
    }

    /// Adds the reply to `action`; refuses one that is no answer to it.
    pub fn record(&mut self, action: &Action, reply: Reply) -> (r: bool)
        ensures
            r == answers(action.deep_view(), reply.deep_view()),
            r ==> final(self)@ == old(self)@.push(reply.deep_view()),
            !r ==> final(self)@ == old(self)@,
    {
        if action.answered_by(&reply) {
            self.replies.push(reply);
            assert(self@ =~= old(self)@.push(reply.deep_view()));
            true
        } else {
            false
        }
    }

    /// The reply to `action`, if it stands at `at`.
    fn ask(&self, at: usize, action: Action) -> (r: Progress<&Reply>)
        ensures
            step_view(r) == ask(self@, at as int, action.deep_view()),
            r matches Ok((reply, n)) ==> answers(action.deep_view(), reply.deep_view()),
    {
        if at < self.replies.len() && action.answered_by(&self.replies[at]) {
            Ok((&self.replies[at], at + 1))
        } else {
            Err(action)
        }
    }

    pub fn write(&self, at: usize, path: String, contents: &str) -> (r: Progress<
        Result<(), IoError>,
    >)
        ensures
            outcome_view(r) == write(self@, at as int, path@, contents@),
    {
        let (reply, n) = self.ask(at, Action::Write { path, contents: contents.to_owned() })?;
        match reply {
            Reply::Done(r) => Ok((*r, n)),
            _ => unreached(),
        }
    }

    pub fn rename(&self, at: usize, from: &str, to: &str) -> (r: Progress<Result<(), IoError>>)
        ensures
            outcome_view(r) == rename(self@, at as int, from@, to@),
    {
        let (reply, n) = self.ask(at, Action::Rename { from: from.to_owned(), to: to.to_owned() })?;
        match reply {
            Reply::Done(r) => Ok((*r, n)),
            _ => unreached(),
        }
    }

    pub fn read(&self, at: usize, path: String) -> (r: Progress<Result<&String, IoError>>)
        ensures
            outcome_view(r) == read(self@, at as int, path@),
    {
        let (reply, n) = self.ask(at, Action::Read { path })?;
        match reply {
            Reply::Text(Ok(s)) => Ok((Ok(s), n)),
            Reply::Text(Err(e)) => Ok((Err(*e), n)),
            _ => unreached(),
        }
    }

    pub fn resolve(&self, at: usize, path: String) -> (r: Progress<Result<&String, IoError>>)
        ensures
            outcome_view(r) == resolve(self@, at as int, path@),
    {
        let (reply, n) = self.ask(at, Action::Resolve { path })?;
        match reply {
            Reply::Text(Ok(s)) => Ok((Ok(s), n)),
            Reply::Text(Err(e)) => Ok((Err(*e), n)),
            _ => unreached(),
        }
    }

    pub fn list(&self, at: usize, path: String) -> (r: Progress<Result<&Vec<String>, IoError>>)
        ensures
            outcome_view(r) == list(self@, at as int, path@),
    {
        let (reply, n) = self.ask(at, Action::List { path })?;
        match reply {
            Reply::Names(Ok(names)) => Ok((Ok(names), n)),
            Reply::Names(Err(e)) => Ok((Err(*e), n)),
            _ => unreached(),
        }
    }

    pub fn path_exists(&self, at: usize, path: String) -> (r: Progress<bool>)
        ensures
            step_view(r) == path_exists(self@, at as int, path@),
    {
        let (reply, n) = self.ask(at, Action::Exists { path })?;
        match reply {
            Reply::Present(b) => Ok((*b, n)),
            _ => unreached(),
        }
    }

    pub fn run(&self, at: usize, program: &str, args: Vec<String>) -> (r: Progress<
        Result<ExitStatus, IoError>,
    >)
        ensures
            outcome_view(r) == run(self@, at as int, program@, args.deep_view()),
    {
        let (reply, n) = self.ask(at, Action::Run { program: program.to_owned(), args })?;
        match reply {
            Reply::Exit(r) => Ok((*r, n)),
            _ => unreached(),
        }
    }

    pub fn run_for_errors(&self, at: usize, program: &str, args: Vec<String>) -> (r: Progress<
        Result<&String, IoError>,
    >)
        ensures
            outcome_view(r) == run_for_errors(self@, at as int, program@, args.deep_view()),
    {
        let (reply, n) = self.ask(at, Action::RunForErrors { program: program.to_owned(), args })?;
        match reply {
            Reply::Text(Ok(s)) => Ok((Ok(s), n)),
            Reply::Text(Err(e)) => Ok((Err(*e), n)),
            _ => unreached(),
        }
    }

    pub fn scan_pci(&self, at: usize) -> (r: Progress<
        Result<&Vec<UdevDevice>, PCIEnumerationError>,
    >)
        ensures
            outcome_view(r) == scan_pci(self@, at as int),
    {
        let (reply, n) = self.ask(at, Action::ScanPci)?;
        match reply {
            Reply::Devices(Ok(devices)) => Ok((Ok(devices), n)),
            Reply::Devices(Err(e)) => Ok((Err(*e), n)),
            _ => unreached(),
        }
    }

    pub fn list_holders(&self, at: usize, path: String) -> (r: Progress<Option<&Vec<Holder>>>)
        ensures
            step_view(r) == list_holders(self@, at as int, path@),
    {
        let (reply, n) = self.ask(at, Action::ListHolders { path })?;
        match reply {
            Reply::Holders(Some(list)) => Ok((Some(list), n)),
            Reply::Holders(None) => Ok((None, n)),
            _ => unreached(),
        }
    }

    pub fn kill(&self, at: usize, pid: i32) -> (r: Progress<i32>)
        ensures
            step_view(r) == kill(self@, at as int, pid),
    {
        let (reply, n) = self.ask(at, Action::Kill { pid })?;
        match reply {
            Reply::Killed(code) => Ok((*code, n)),
            _ => unreached(),
        }
    }

    pub fn sleep(&self, at: usize, millis: u64) -> (r: Progress<()>)
        ensures
            step_view(r) == sleep(self@, at as int, millis),
    {
        let (reply, n) = self.ask(at, Action::Sleep { millis })?;
        match reply {
            Reply::Elapsed => Ok(((), n)),
            _ => unreached(),
        }
    }
}


/// A reply answers an action if it is of the kind that belongs to it, whatever came of the action;
/// but a resolved path has to end in a name, and every process that is listed has to have a number.
pub proof fn law_replies_answer_actions(action: ActionView, reply: ReplyView)
    ensures
        action is Write || action is Rename ==> (answers(action, reply) <==> reply is Done),
        action is Read || action is RunForErrors ==> (answers(action, reply) <==> reply is Text),
        action is List ==> (answers(action, reply) <==> reply is Names),
        action is Exists ==> (answers(action, reply) <==> reply is Present),
        action is Run ==> (answers(action, reply) <==> reply is Exit),
        action is ScanPci ==> (answers(action, reply) <==> reply is Devices),
        action is Kill ==> (answers(action, reply) <==> reply is Killed),
        action is Sleep ==> (answers(action, reply) <==> reply is Elapsed),
        action is Resolve ==> {
            &&& answers(action, reply) ==> reply is Text
            &&& reply matches ReplyView::Text(Err(_)) ==> answers(action, reply)
            &&& reply matches ReplyView::Text(Ok(path)) ==> (answers(action, reply)
                <==> path.len() > 0 && path.last() != '/')
        },
        action is ListHolders ==> {
            &&& answers(action, reply) ==> reply is Holders
            &&& reply matches ReplyView::Holders(None) ==> answers(action, reply)
            &&& reply matches ReplyView::Holders(Some(list)) ==> (answers(action, reply)
                <==> forall|i: int|
                0 <= i < list.len() ==> digits::number(
                    #[trigger] list[i].pid,
                    0xffff_ffff,
                ) is Some)
        },
{
    if let ReplyView::Holders(Some(list)) = reply {
        assert forall|i: int| 0 <= i < list.len() implies process_id(list[i].pid) is Some
            == digits::number(#[trigger] list[i].pid, 0xffff_ffff) is Some by {}
    }
}

/// A process id is the number that is spelled, taken as 32 bits with a sign.
pub proof fn law_process_ids_wrap(pid: Seq<char>)
    ensures
        match digits::number(pid, 0xffff_ffff) {
            None => process_id(pid) is None,
            Some(n) => process_id(pid) matches Some(id) && (id as int - n as int) % 0x1_0000_0000
                == 0,
        },
{
}


/// A procedure takes a reply only in the place where it asks, and only one that answers; with
/// anything else, or nothing, it goes on asking.
pub proof fn law_only_an_answer_is_taken(t: Seq<ReplyView>, at: int, action: ActionView)
    ensures
        0 <= at < t.len() && answers(action, t[at]) ==> ask(t, at, action) == Ok::<
            (ReplyView, int),
            ActionView,
        >((t[at], at + 1)),
        !(0 <= at < t.len() && answers(action, t[at])) ==> awaits(ask(t, at, action), action),
{
}

} // verus!
