//! What the create, update and delete operations of every entity share: the
//! kinds of failure, the phases of one operation with its uploads and deferred
//! removals, and the detection of images that a new body no longer embeds.
use vstd::prelude::*;
use vstd::string::*;
use crate::services::Outcome;
use crate::utils::html::{cleaned, Markup};
use crate::utils::image::{
    families_of, family_of, paths_of, push_family, raster_extension, stored_name, texts, Uploader,
    UploadRequest,
};
use crate::utils::patch::{
    extract_fields, extracted, extracted_order, form_view, optional_text_view, text_field,
    text_patch, text_view, FieldMap, FieldSpec, FormField, Patch,
};
use crate::utils::text::{byte_len, contains, dotless, occurs_in, same_text, trim, trimmed};

pub mod blog;
pub mod portfolio;

verus! {

/// Why an operation was refused or failed.
#[derive(Debug, Clone, Copy, PartialEq, Eq, Structural)]
pub enum Failure {
    /// The caller is not authenticated.
    Unauthorized,
    /// The input is malformed or out of policy.
    Validation,
    /// The entity, or one that the input refers to, does not exist.
    NotFound,
    /// The entity vanished between the check and the write.
    Conflict,
    /// A picture could not be decoded or written, or the store failed.
    Storage,
    /// A step was asked for before the steps that it rests on had passed.
    OutOfOrder,
}

impl Failure {
    /// The HTTP status that reports the failure: 401 for a caller who is not
    /// authenticated, 400 for bad input, 404 for a missing entity, and 500 for
    /// a conflict, a storage failure or a step out of order.
    pub fn status(self) -> (code: u16)
        ensures
            code == (match self {
                Failure::Unauthorized => 401u16,
                Failure::Validation => 400u16,
                Failure::NotFound => 404u16,
                Failure::Conflict => 500u16,
                Failure::Storage => 500u16,
                Failure::OutOfOrder => 500u16,
            }),
    {
        match self {
            Failure::Unauthorized => 401,
            Failure::Validation => 400,
            Failure::NotFound => 404,
            Failure::Conflict => 500,
            Failure::Storage => 500,
            Failure::OutOfOrder => 500,
        }
    }
}

/// Reads the existence check of an entity that the input refers to: one that
/// is absent is not found.
pub fn require(exists: bool) -> (r: Result<(), Failure>)
    ensures
        exists ==> r == Ok::<(), Failure>(()),
        !exists ==> r == Err::<(), Failure>(Failure::NotFound),
{
    if exists {
        Ok(())
    } else {
        Err(Failure::NotFound)
    }
}

/// What an operation does to its entity.
#[derive(Debug, Clone, Copy, PartialEq, Eq, Structural)]
pub enum Kind {
    /// A new entity is made: there is nothing to look up.
    Create,
    /// An entity is changed: it must exist and the input must pass.
    Update,
    /// An entity is removed: it must exist and there is no input.
    Delete,
}

/// Where an operation stands. The phases are passed in this order; the only
/// way out of the order is to be given up.
#[derive(Debug, Clone, Copy, PartialEq, Eq, Structural)]
pub enum Phase {
    /// The request arrived and nothing was looked at.
    Arrived,
    /// The caller is authenticated.
    Authorized,
    /// The entity exists.
    Found,
    /// The input passed its checks.
    Checked,
    /// The transaction is open: files may be written and removals scheduled.
    Writing,
    /// The entity's row was written inside the open transaction.
    Persisted,
    /// The transaction was committed.
    Committed,
    /// The operation was given up.
    Aborted,
}

/// An operation as contracts see it: its kind, its phase, the files that it
/// wrote and would take back, and the files that it removes once committed.
/// Outside an open transaction both lists are empty.
pub struct OperationSpec {
    pub kind: Kind,
    pub phase: Phase,
    pub uploads: Seq<Seq<char>>,
    pub doomed: Seq<Seq<char>>,
}

/// What can happen to an operation.
pub enum Event {
    /// The caller was or was not found to be authenticated.
    Authorize(bool),
    /// The entity was or was not found in the store.
    Find(bool),
    /// The input was checked: the failure, if it did not pass.
    Validate(Option<Failure>),
    /// The transaction is opened.
    Begin,
    /// An upload was attempted: the paths of its plan and the number of
    /// files written before the first failure.
    Upload(Seq<Seq<char>>, nat),
    /// A registered file, given by its stored path, is to leave the disk.
    Doom(Seq<char>),
    /// The store answered the write of the entity's row.
    Persist(Outcome),
    /// The transaction was committed.
    Commit,
    /// The operation is given up.
    Abort,
}

impl OperationSpec {
    /// An operation that has looked at nothing yet.
    pub open spec fn fresh(kind: Kind) -> OperationSpec {
        OperationSpec { kind, phase: Phase::Arrived, uploads: Seq::empty(), doomed: Seq::empty() }
    }

    /// Whether the transaction is open.
    pub open spec fn open(self) -> bool {
        self.phase == Phase::Writing || self.phase == Phase::Persisted
    }

    /// Both lists are empty outside an open transaction.
    pub open spec fn wf(self) -> bool {
        !self.open() ==> self.uploads.len() == 0 && self.doomed.len() == 0
    }

    /// Whether the existence check is due: the caller is authenticated and
    /// the operation works on an entity that is there already.
    pub open spec fn awaits_entity(self) -> bool {
        self.phase == Phase::Authorized && self.kind != Kind::Create
    }

    /// Whether the check of the input is due: a new entity needs an
    /// authenticated caller, a changed one must have been found.
    pub open spec fn awaits_input(self) -> bool {
        (self.kind == Kind::Create && self.phase == Phase::Authorized) || (self.kind
            == Kind::Update && self.phase == Phase::Found)
    }

    /// Whether the transaction may open: every check that the kind of
    /// operation asks for has passed.
    pub open spec fn ready(self) -> bool {
        if self.kind == Kind::Delete {
            self.phase == Phase::Found
        } else {
            self.phase == Phase::Checked
        }
    }

    /// Whether an upload with this plan and this many files written is kept.
    pub open spec fn keeps(self, plan: Seq<Seq<char>>, written: nat) -> bool {
        self.phase == Phase::Writing && written >= plan.len()
    }

    /// What an event is answered with: nothing where the step passes, else the
    /// failure. A step that is asked for out of its order is refused as such;
    /// a check that fails, an upload that is not kept and a row that
    /// vanished each have their own failure.
    pub open spec fn answer(self, event: Event) -> Option<Failure> {
        match event {
            Event::Authorize(authenticated) => if self.phase != Phase::Arrived {
                Some(Failure::OutOfOrder)
            } else if authenticated {
                None
            } else {
                Some(Failure::Unauthorized)
            },
            Event::Find(exists) => if !self.awaits_entity() {
                Some(Failure::OutOfOrder)
            } else if exists {
                None
            } else {
                Some(Failure::NotFound)
            },
            Event::Validate(refusal) => if !self.awaits_input() {
                Some(Failure::OutOfOrder)
            } else {
                refusal
            },
            Event::Begin => if self.ready() {
                None
            } else {
                Some(Failure::OutOfOrder)
            },
            Event::Upload(plan, written) => if self.keeps(plan, written) {
                None
            } else {
                Some(Failure::Storage)
            },
            Event::Doom(_) => if self.phase == Phase::Writing {
                None
            } else {
                Some(Failure::OutOfOrder)
            },
            Event::Persist(outcome) => if self.phase != Phase::Writing {
                Some(Failure::OutOfOrder)
            } else if outcome == Outcome::Vanished {
                Some(Failure::Conflict)
            } else {
                None
            },
            Event::Commit => if self.phase == Phase::Persisted {
                None
            } else {
                Some(Failure::OutOfOrder)
            },
            Event::Abort => None,
        }
    }

    /// The operation in another phase, with nothing written or scheduled.
    pub open spec fn settled(self, phase: Phase) -> OperationSpec {
        OperationSpec { phase, uploads: Seq::empty(), doomed: Seq::empty(), ..self }
    }

    /// The operation after an event. A step that passes moves the operation
    /// on; one of the three checks that fails in its turn ends it; a step
    /// out of its order, an upload that is not kept and a row that vanished
    /// leave it where it is. Giving up ends every operation that has not
    /// committed.
    pub open spec fn step(self, event: Event) -> OperationSpec {
        match event {
            Event::Authorize(authenticated) => if self.phase != Phase::Arrived {
                self
            } else if authenticated {
                OperationSpec { phase: Phase::Authorized, ..self }
            } else {
                self.settled(Phase::Aborted)
            },
            Event::Find(exists) => if !self.awaits_entity() {
                self
            } else if exists {
                OperationSpec { phase: Phase::Found, ..self }
            } else {
                self.settled(Phase::Aborted)
            },
            Event::Validate(refusal) => if !self.awaits_input() {
                self
            } else if refusal is None {
                OperationSpec { phase: Phase::Checked, ..self }
            } else {
                self.settled(Phase::Aborted)
            },
            Event::Begin => if self.ready() {
                OperationSpec { phase: Phase::Writing, ..self }
            } else {
                self
            },
            Event::Upload(plan, written) => if self.keeps(plan, written) {
                OperationSpec { uploads: self.uploads + plan, ..self }
            } else {
                self
            },
            Event::Doom(path) => if self.phase == Phase::Writing {
                OperationSpec { doomed: self.doomed + family_of(path), ..self }
            } else {
                self
            },
            Event::Persist(outcome) => if self.phase == Phase::Writing && outcome
                != Outcome::Vanished {
                OperationSpec { phase: Phase::Persisted, ..self }
            } else {
                self
            },
            Event::Commit => if self.phase == Phase::Persisted {
                self.settled(Phase::Committed)
            } else {
                self
            },
            Event::Abort => if self.phase == Phase::Committed {
                self
            } else {
                self.settled(Phase::Aborted)
            },
        }
    }

    /// The operation after the files of several registered files, given by
    /// their stored paths, are scheduled for removal, record by record.
    pub open spec fn doom_all(self, paths: Seq<Seq<char>>) -> OperationSpec {
        if self.phase == Phase::Writing {
            OperationSpec { doomed: self.doomed + families_of(paths), ..self }
        } else {
            self
        }
    }

    /// The files that an event hands out for removal from the disk: the files
    /// of an upload that is not kept, the scheduled removals at the commit,
    /// the uploads when the operation is given up.
    pub open spec fn removes(self, event: Event) -> Seq<Seq<char>> {
        match event {
            Event::Upload(plan, written) => if self.keeps(plan, written) {
                Seq::empty()
            } else if written < plan.len() {
                plan.take(written as int)
            } else {
                plan
            },
            Event::Commit => if self.phase == Phase::Persisted {
                self.doomed
            } else {
                Seq::empty()
            },
            Event::Abort => if self.open() {
                self.uploads
            } else {
                Seq::empty()
            },
            _ => Seq::empty(),
        }
    }
}

/// An upload that is not kept: the failure to report and the files that it
/// did write, which are removed at once.
#[derive(Debug, Clone, PartialEq)]
pub struct Rollback {
    pub failure: Failure,
    pub remove: Vec<String>,
}

/// One create, update or delete operation: its kind, its phase, the files
/// that it wrote and would take back, and the files that it will remove once
/// committed.
pub struct Operation {
    kind: Kind,
    phase: Phase,
    uploader: Uploader,
    doomed: Vec<String>,
}

impl View for Operation {
    type V = OperationSpec;

    closed spec fn view(&self) -> OperationSpec {
        if self.phase == Phase::Writing || self.phase == Phase::Persisted {
            OperationSpec {
                kind: self.kind,
                phase: self.phase,
                uploads: self.uploader@,
                doomed: texts(self.doomed@),
            }
        } else {
            OperationSpec {
                kind: self.kind,
                phase: self.phase,
                uploads: Seq::empty(),
                doomed: Seq::empty(),
            }
        }
    }
}

impl Operation {
    /// An operation that has looked at nothing yet.
    pub fn new(kind: Kind) -> (r: Operation)
        ensures
            r@ == OperationSpec::fresh(kind),
    {
        Operation { kind, phase: Phase::Arrived, uploader: Uploader::new(), doomed: Vec::new() }
    }

    /// The phase of the operation.
    pub fn current(&self) -> (r: Phase)
        ensures
            r == self@.phase,
            self@.wf(),
    {
        self.phase
    }

    /// The first step: a caller who is authenticated is let in, any other is
    /// turned away and the operation ends. Asked again later, it is refused.
    pub fn authorize(&mut self, authenticated: bool) -> (r: Result<(), Failure>)
        ensures
            final(self)@ == old(self)@.step(Event::Authorize(authenticated)),
            match old(self)@.answer(Event::Authorize(authenticated)) {
                None => r == Ok::<(), Failure>(()),
                Some(failure) => r == Err::<(), Failure>(failure),
            },
    {
        match self.phase {
            Phase::Arrived => {
                if authenticated {
                    self.phase = Phase::Authorized;
                    Ok(())
                } else {
                    self.phase = Phase::Aborted;
                    Err(Failure::Unauthorized)
                }
            },
            _ => Err(Failure::OutOfOrder),
        }
    }

    /// The existence check of an update or a delete, once the caller is
    /// authenticated: an entity that is absent is not found and the operation
    /// ends. A new entity has none; there, and out of order, it is refused.
    pub fn find(&mut self, exists: bool) -> (r: Result<(), Failure>)
        ensures
            final(self)@ == old(self)@.step(Event::Find(exists)),
            match old(self)@.answer(Event::Find(exists)) {
                None => r == Ok::<(), Failure>(()),
                Some(failure) => r == Err::<(), Failure>(failure),
            },
    {
        let due = match (self.phase, self.kind) {
            (Phase::Authorized, Kind::Update) => true,
            (Phase::Authorized, Kind::Delete) => true,
            _ => false,
        };
        if !due {
            Err(Failure::OutOfOrder)
        } else if exists {
            self.phase = Phase::Found;
            Ok(())
        } else {
            self.phase = Phase::Aborted;
            Err(Failure::NotFound)
        }
    }

    /// The check of the input, once the caller is authenticated and, for an
    /// update, the entity is found. It takes what the check gave: input that
    /// passed is handed on, a failure ends the operation and is handed on as
    /// well. Out of order the step is refused and the input held back.
    pub fn validate<T>(&mut self, checked: Result<T, Failure>) -> (r: Result<T, Failure>)
        ensures
            final(self)@ == old(self)@.step(
                Event::Validate(
                    match checked {
                        Ok(_) => None,
                        Err(failure) => Some(failure),
                    },
                ),
            ),
            if old(self)@.awaits_input() {
                r == checked
            } else {
                r == Err::<T, Failure>(Failure::OutOfOrder)
            },
    {
        let due = match (self.phase, self.kind) {
            (Phase::Authorized, Kind::Create) => true,
            (Phase::Found, Kind::Update) => true,
            _ => false,
        };
        if !due {
            return Err(Failure::OutOfOrder);
        }
        match checked {
            Ok(value) => {
                self.phase = Phase::Checked;
                Ok(value)
            },
            Err(failure) => {
                self.phase = Phase::Aborted;
                Err(failure)
            },
        }
    }

    /// Opens the transaction. It opens only when every check that the kind of
    /// operation asks for has passed: authentication always, the existence
    /// of the entity for an update and a delete, the input for a create and an
    /// update.
    pub fn begin(&mut self) -> (ok: bool)
        ensures
            ok == old(self)@.ready(),
            final(self)@ == old(self)@.step(Event::Begin),
    {
        let ready = match (self.phase, self.kind) {
            (Phase::Found, Kind::Delete) => true,
            (Phase::Checked, Kind::Create) => true,
            (Phase::Checked, Kind::Update) => true,
            _ => false,
        };
        if ready {
            self.uploader.clear();
            self.doomed.clear();
            self.phase = Phase::Writing;
            assert(self@.doomed =~= Seq::<Seq<char>>::empty());
        }
        ready
    }

    /// Records the writes of one upload (see `Uploader::handle`): `written`
    /// counts the files of the request's plan that were written before the first
    /// failure. While the transaction is open, the row not yet written, and
    /// every file was written, the files are tracked and the name to register
    /// is returned. Otherwise nothing is tracked and the error, a storage
    /// failure, lists the files that were written, for removal at once.
    pub fn upload(&mut self, request: &UploadRequest, has_alpha: bool, written: usize) -> (r:
        Result<String, Rollback>)
        ensures
            ({
                let event = Event::Upload(paths_of(request.planned(has_alpha)), written as nat);
                &&& final(self)@ == old(self)@.step(event)
                &&& r is Ok <==> old(self)@.answer(event) is None
                &&& r is Ok ==> r->Ok_0@ == request.name@ + "."@ + raster_extension(has_alpha)
                &&& r is Err ==> Some(r->Err_0.failure) == old(self)@.answer(event) && texts(
                    r->Err_0.remove@,
                ) == old(self)@.removes(event)
            }),
    {
        let name = request.name.as_str();
        match self.phase {
            Phase::Writing => {
                match self.uploader.handle(
                    name,
                    has_alpha,
                    request.max_mobile,
                    request.max_desktop,
                    request.with_webp,
                    written,
                ) {
                    Ok(()) => Ok(stored_name(name, has_alpha)),
                    Err(remove) => Err(Rollback { failure: Failure::Storage, remove }),
                }
            },
            _ => {
                let mut aside = Uploader::new();
                match aside.handle(
                    name,
                    has_alpha,
                    request.max_mobile,
                    request.max_desktop,
                    request.with_webp,
                    written,
                ) {
                    Ok(()) => {
                        let remove = aside.release();
                        proof {
                            let plan = paths_of(request.planned(has_alpha));
                            assert(texts(remove@) =~= plan);
                        }
                        Err(Rollback { failure: Failure::Storage, remove })
                    },
                    Err(remove) => Err(Rollback { failure: Failure::Storage, remove }),
                }
            },
        }
    }

    /// Schedules the files of a registered file for removal after the commit.
    /// Nothing is scheduled unless the transaction is open and the row not
    /// yet written.
    pub fn doom(&mut self, stored_path: &str) -> (ok: bool)
        ensures
            ok == (old(self)@.phase == Phase::Writing),
            final(self)@ == old(self)@.step(Event::Doom(stored_path@)),
    {
        match self.phase {
            Phase::Writing => {
                push_family(&mut self.doomed, stored_path);
                true
            },
            _ => false,
        }
    }

    /// Schedules the files of several registered files for removal after the
    /// commit, four for each stored path. Nothing is scheduled unless the
    /// transaction is open and the row not yet written.
    pub fn doom_all(&mut self, stored_paths: &Vec<String>) -> (ok: bool)
        ensures
            ok == (old(self)@.phase == Phase::Writing),
            final(self)@ == old(self)@.doom_all(texts(stored_paths@)),
    {
        match self.phase {
            Phase::Writing => {},
            _ => {
                return false;
            },
        }
        let ghost start = self@;
        let ghost paths = texts(stored_paths@);
        let mut i: usize = 0;
        proof {
            assert(paths.take(0) =~= Seq::<Seq<char>>::empty());
            assert(self@.doomed =~= start.doomed + families_of(paths.take(0)));
        }
        while i < stored_paths.len()
            invariant
                i <= stored_paths@.len(),
                paths == texts(stored_paths@),
                start.phase == Phase::Writing,
                self@.phase == Phase::Writing,
                self@.kind == start.kind,
                self@.uploads == start.uploads,
                self@.doomed == start.doomed + families_of(paths.take(i as int)),
            decreases stored_paths@.len() - i,
        {
            proof {
                assert(paths.take(i + 1).drop_last() =~= paths.take(i as int));
                assert(paths.take(i + 1).last() == stored_paths@[i as int]@);
            }
            push_family(&mut self.doomed, stored_paths[i].as_str());
            proof {
                assert(self@.doomed =~= start.doomed + families_of(paths.take(i + 1)));
            }
            i += 1;
        }
        proof {
            assert(paths.take(stored_paths@.len() as int) =~= paths);
        }
        true
    }

    /// Reads the store's answer to the write of the entity's row, inside the
    /// open transaction and after every upload. A row that was written, or an
    /// update with nothing to write, lets the operation go on to its commit; a
    /// statement that did not touch exactly one row found its entity gone,
    /// which is a conflict and leaves the operation to be given up.
    pub fn persist(&mut self, outcome: Outcome) -> (r: Result<(), Failure>)
        ensures
            final(self)@ == old(self)@.step(Event::Persist(outcome)),
            match old(self)@.answer(Event::Persist(outcome)) {
                None => r == Ok::<(), Failure>(()),
                Some(failure) => r == Err::<(), Failure>(failure),
            },
    {
        match self.phase {
            Phase::Writing => {
                match outcome {
                    Outcome::Vanished => Err(Failure::Conflict),
                    _ => {
                        self.phase = Phase::Persisted;
                        Ok(())
                    },
                }
            },
            _ => Err(Failure::OutOfOrder),
        }
    }

    /// Marks the commit of the transaction, which follows the write of the
    /// row. The uploads become permanent and the scheduled removals are handed
    /// out: they are carried out now, and only now. An operation whose row
    /// was not written hands out nothing and stays where it is.
    pub fn commit(&mut self) -> (remove: Vec<String>)
        ensures
            final(self)@ == old(self)@.step(Event::Commit),
            texts(remove@) == old(self)@.removes(Event::Commit),
    {
        let mut remove: Vec<String> = Vec::new();
        match self.phase {
            Phase::Persisted => {
                let ghost before = texts(self.doomed@);
                remove.append(&mut self.doomed);
                self.uploader.clear();
                self.phase = Phase::Committed;
                proof {
                    assert(texts(remove@) =~= before);
                }
            },
            _ => {
                assert(texts(remove@) =~= Seq::<Seq<char>>::empty());
            },
        }
        remove
    }

    /// Gives the operation up. Every file that it wrote is handed out for
    /// removal and the scheduled removals are dropped: no stored file is
    /// touched. A committed operation stays committed and hands out nothing.
    pub fn abort(&mut self) -> (remove: Vec<String>)
        ensures
            final(self)@ == old(self)@.step(Event::Abort),
            texts(remove@) == old(self)@.removes(Event::Abort),
    {
        match self.phase {
            Phase::Writing => {
                let remove = self.uploader.release();
                self.doomed.clear();
                self.phase = Phase::Aborted;
                remove
            },
            Phase::Persisted => {
                let remove = self.uploader.release();
                self.doomed.clear();
                self.phase = Phase::Aborted;
                remove
            },
            Phase::Committed => {
                let remove: Vec<String> = Vec::new();
                assert(texts(remove@) =~= Seq::<Seq<char>>::empty());
                remove
            },
            _ => {
                self.phase = Phase::Aborted;
                let remove: Vec<String> = Vec::new();
                assert(texts(remove@) =~= Seq::<Seq<char>>::empty());
                remove
            },
        }
    }
}

/// The operation after a sequence of events.
pub open spec fn run(start: OperationSpec, events: Seq<Event>) -> OperationSpec
    decreases events.len(),
{
    if events.len() == 0 {
        start
    } else {
        run(start, events.drop_last()).step(events.last())
    }
}

/// The events that schedule the removal of each of several registered files.
pub open spec fn dooms(paths: Seq<Seq<char>>) -> Seq<Event> {
    Seq::new(paths.len(), |i: int| Event::Doom(paths[i]))
}

/// Scheduling several registered files at once is scheduling them one by
/// one, and every registered file has four files on disk.
pub proof fn lemma_doom_all(state: OperationSpec, paths: Seq<Seq<char>>)
    ensures
        state.doom_all(paths) == run(state, dooms(paths)),
        families_of(paths).len() == 4 * paths.len(),
    decreases paths.len(),
{
    if paths.len() == 0 {
        assert(state.doomed + families_of(paths) =~= state.doomed);
    } else {
        lemma_doom_all(state, paths.drop_last());
        assert(dooms(paths).drop_last() =~= dooms(paths.drop_last()));
        assert(dooms(paths).last() == Event::Doom(paths.last()));
        assert(state.doomed + families_of(paths.drop_last()) + family_of(paths.last())
            =~= state.doomed + families_of(paths));
    }
}

/// Both lists stay empty outside an open transaction, whatever happens.
pub proof fn lemma_step_keeps_wf(state: OperationSpec, event: Event)
    requires
        state.wf(),
    ensures
        state.step(event).wf(),
{
}

/// The steps keep their order. A phase is entered only from the phase before
/// it and only by the step that passes there: the caller is authenticated
/// before anything is looked up, the entity is found before the input is
/// looked at, every check has passed before the transaction opens, the row
/// is written inside the open transaction, and the commit follows the write.
/// A step that is answered with a failure never moves the operation on.
pub proof fn lemma_steps_keep_their_order(state: OperationSpec, event: Event)
    ensures
        ({
            let next = state.step(event);
            &&& next.kind == state.kind
            &&& next.phase != state.phase ==> (match next.phase {
                Phase::Arrived => false,
                Phase::Authorized => state.phase == Phase::Arrived && event == Event::Authorize(
                    true,
                ),
                Phase::Found => state.phase == Phase::Authorized && event == Event::Find(true)
                    && state.kind != Kind::Create,
                Phase::Checked => event == Event::Validate(None) && (if state.kind
                    == Kind::Create {
                    state.phase == Phase::Authorized
                } else {
                    state.kind == Kind::Update && state.phase == Phase::Found
                }),
                Phase::Writing => event is Begin && (if state.kind == Kind::Delete {
                    state.phase == Phase::Found
                } else {
                    state.phase == Phase::Checked
                }),
                Phase::Persisted => state.phase == Phase::Writing && event is Persist
                    && event->Persist_0 != Outcome::Vanished,
                Phase::Committed => state.phase == Phase::Persisted && event is Commit,
                Phase::Aborted => true,
            })
            &&& state.answer(event) is Some ==> next.phase == state.phase || next.phase
                == Phase::Aborted
        }),
{
}

/// How far an operation has come: the number of the phase in the order of
/// the steps. An operation that was given up has come nowhere.
pub open spec fn progress(phase: Phase) -> nat {
    match phase {
        Phase::Arrived => 0,
        Phase::Aborted => 0,
        Phase::Authorized => 1,
        Phase::Found => 2,
        Phase::Checked => 3,
        Phase::Writing => 4,
        Phase::Persisted => 5,
        Phase::Committed => 6,
    }
}

/// Nothing is written for a request that did not pass its checks. Whatever
/// sequence of events an operation went through since the request arrived:
/// if it got anywhere, the caller was authenticated; if its transaction ever
/// opened, the entity of an update or a delete was found and the input of a
/// create or an update had passed; and if it committed, its row was written.
pub proof fn lemma_no_write_without_checks(kind: Kind, events: Seq<Event>)
    ensures
        ({
            let end = run(OperationSpec::fresh(kind), events);
            &&& end.kind == kind
            &&& end.wf()
            &&& progress(end.phase) >= 1 ==> events.contains(Event::Authorize(true))
            &&& progress(end.phase) >= 2 && kind != Kind::Create ==> events.contains(
                Event::Find(true),
            )
            &&& progress(end.phase) >= 3 && kind != Kind::Delete ==> events.contains(
                Event::Validate(None),
            )
            &&& progress(end.phase) >= 4 ==> events.contains(Event::Begin)
            &&& progress(end.phase) >= 6 ==> events.contains(Event::Commit) && exists|i: int|
                0 <= i < events.len() && #[trigger] events[i] is Persist && events[i]->Persist_0
                    != Outcome::Vanished
        }),
    decreases events.len(),
{
    if events.len() > 0 {
        let earlier = events.drop_last();
        let last = events.last();
        lemma_no_write_without_checks(kind, earlier);
        let before = run(OperationSpec::fresh(kind), earlier);
        lemma_steps_keep_their_order(before, last);
        lemma_step_keeps_wf(before, last);
        assert(events[events.len() - 1] == last);
        assert forall|e: Event| earlier.contains(e) implies events.contains(e) by {
            let j = earlier.index_of(e);
            assert(events[j] == e);
        }
        if progress(before.phase) >= 6 {
            let i = choose|i: int|
                0 <= i < earlier.len() && #[trigger] earlier[i] is Persist && earlier[i]->Persist_0
                    != Outcome::Vanished;
            assert(events[i] is Persist && events[i]->Persist_0 != Outcome::Vanished);
        }
        if progress(before.phase) >= 5 && progress(run(OperationSpec::fresh(kind), events).phase)
            >= 6 {
            lemma_persisted_was_written(kind, earlier);
            let i = choose|i: int|
                0 <= i < earlier.len() && #[trigger] earlier[i] is Persist && earlier[i]->Persist_0
                    != Outcome::Vanished;
            assert(events[i] is Persist && events[i]->Persist_0 != Outcome::Vanished);
        }
    }
}

/// An operation whose row counts as written was told so by the store.
pub proof fn lemma_persisted_was_written(kind: Kind, events: Seq<Event>)
    ensures
        progress(run(OperationSpec::fresh(kind), events).phase) >= 5 ==> exists|i: int|
            0 <= i < events.len() && #[trigger] events[i] is Persist && events[i]->Persist_0
                != Outcome::Vanished,
    decreases events.len(),
{
    if events.len() > 0 {
        let earlier = events.drop_last();
        let last = events.last();
        lemma_persisted_was_written(kind, earlier);
        let before = run(OperationSpec::fresh(kind), earlier);
        lemma_steps_keep_their_order(before, last);
        assert(events[events.len() - 1] == last);
        if progress(before.phase) >= 5 {
            let i = choose|i: int|
                0 <= i < earlier.len() && #[trigger] earlier[i] is Persist && earlier[i]->Persist_0
                    != Outcome::Vanished;
            assert(events[i] is Persist && events[i]->Persist_0 != Outcome::Vanished);
        }
    }
}

/// All or nothing outside the transaction: an operation whose transaction is
/// not open tracks no file and schedules no removal whatever is asked of
/// it, and the only files it ever hands out are those of an upload that it
/// refuses to keep.
pub proof fn lemma_nothing_outside_a_transaction(state: OperationSpec, event: Event)
    requires
        state.wf(),
        !state.open(),
    ensures
        state.step(event).uploads == Seq::<Seq<char>>::empty(),
        state.step(event).doomed == Seq::<Seq<char>>::empty(),
        !(event is Upload) ==> state.removes(event) == Seq::<Seq<char>>::empty(),
        state.phase == Phase::Committed ==> state.step(event).phase == Phase::Committed,
        state.phase == Phase::Aborted ==> state.step(event).phase == Phase::Aborted,
{
    assert(state.uploads =~= Seq::<Seq<char>>::empty());
    assert(state.doomed =~= Seq::<Seq<char>>::empty());
}

/// Stored files leave the disk at the commit and at no other time: whatever
/// an event other than the commit hands out is made of files that this
/// operation wrote itself, the tracked uploads or the files of the upload at
/// hand; the commit hands out the scheduled removals and nothing else.
pub proof fn lemma_removals_wait_for_the_commit(state: OperationSpec, event: Event, k: int)
    requires
        0 <= k < state.removes(event).len(),
    ensures
        match event {
            Event::Commit => state.phase == Phase::Persisted && state.removes(event)
                == state.doomed,
            Event::Abort => state.removes(event) == state.uploads,
            Event::Upload(plan, written) => k < plan.len() && state.removes(event)[k] == plan[k],
            _ => false,
        },
{
}

/// An operation that is given up takes back every file it wrote: each file of
/// an upload that was kept is handed out by the abort, however many uploads and
/// scheduled removals follow it and whether or not the row was written
/// since, and none of the scheduled removals is carried out.
pub proof fn lemma_abort_takes_every_upload_back(
    state: OperationSpec,
    plan: Seq<Seq<char>>,
    written: nat,
    later: Seq<Event>,
    k: int,
)
    requires
        state.keeps(plan, written),
        0 <= k < plan.len(),
        forall|i: int|
            0 <= i < later.len() ==> later[i] is Upload || later[i] is Doom
                || later[i] is Persist,
    ensures
        run(state.step(Event::Upload(plan, written)), later).open(),
        run(state.step(Event::Upload(plan, written)), later).removes(Event::Abort)[state.uploads.len()
            + k] == plan[k],
        run(state.step(Event::Upload(plan, written)), later).uploads.len() >= state.uploads.len()
            + plan.len(),
    decreases later.len(),
{
    let first = state.step(Event::Upload(plan, written));
    if later.len() == 0 {
        assert(first.uploads[state.uploads.len() + k] == plan[k]);
    } else {
        lemma_abort_takes_every_upload_back(state, plan, written, later.drop_last(), k);
        let before = run(first, later.drop_last());
        let event = later.last();
        assert(event == later[later.len() - 1]);
        match event {
            Event::Upload(next, count) => {
                if before.keeps(next, count) {
                    assert((before.uploads + next)[state.uploads.len() + k]
                        == before.uploads[state.uploads.len() + k]);
                }
            },
            _ => {},
        }
    }
}

/// An image embedded in an article's body, as the store records it.
#[derive(Debug, Clone, PartialEq)]
pub struct StoredImage {
    pub id: String,
    pub path: String,
}

/// A stored image as contracts see it.
pub struct ImageSpec {
    pub id: Seq<char>,
    pub path: Seq<char>,
}

impl View for StoredImage {
    type V = ImageSpec;

    open spec fn view(&self) -> ImageSpec {
        ImageSpec { id: self.id@, path: self.path@ }
    }
}

/// The views of a vector of stored images.
pub open spec fn image_views(images: Seq<StoredImage>) -> Seq<ImageSpec> {
    Seq::new(images.len(), |i: int| images[i]@)
}

/// The reference to an image in a body: its id between double square brackets.
pub open spec fn placeholder(id: Seq<char>) -> Seq<char> {
    "[["@ + id + "]]"@
}

/// Whether a body embeds an image: the reference to the image occurs in it.
/// The bare id in the text is no reference.
pub open spec fn embeds(content: Seq<char>, id: Seq<char>) -> bool {
    occurs_in(content, placeholder(id))
}

/// Builds the reference to an image.
pub fn reference(id: &str) -> (r: String)
    ensures
        r@ == placeholder(id@),
{
    let mut r = String::from_str("[[");
    r.append(id);
    r.append("]]");
    r
}

/// The images that a body no longer embeds: those whose reference does not
/// occur in it.
pub open spec fn stale_of(content: Seq<char>, images: Seq<ImageSpec>) -> Seq<ImageSpec>
    decreases images.len(),
{
    if images.len() == 0 {
        Seq::empty()
    } else if embeds(content, images.last().id) {
        stale_of(content, images.drop_last())
    } else {
        stale_of(content, images.drop_last()).push(images.last())
    }
}

/// Picks, in order, the registered images that the new body does not embed
/// any more: those whose reference `[[id]]` it does not hold. Their rows are
/// to be deleted and their files removed after the commit.
pub fn stale_images(content: &str, images: &Vec<StoredImage>) -> (stale: Vec<StoredImage>)
    ensures
        image_views(stale@) == stale_of(content@, image_views(images@)),
{
    let mut stale: Vec<StoredImage> = Vec::new();
    let mut i: usize = 0;
    assert(image_views(images@).take(0) =~= Seq::<ImageSpec>::empty());
    assert(image_views(stale@) =~= Seq::<ImageSpec>::empty());
    while i < images.len()
        invariant
            i <= images@.len(),
            image_views(stale@) == stale_of(content@, image_views(images@).take(i as int)),
        decreases images@.len() - i,
    {
        proof {
            assert(image_views(images@).take(i + 1).drop_last() =~= image_views(images@).take(
                i as int,
            ));
            assert(image_views(images@).take(i + 1).last() == images@[i as int]@);
        }
        let ghost before = image_views(stale@);
        let wanted = reference(images[i].id.as_str());
        if !contains(content, wanted.as_str()) {
            stale.push(
                StoredImage {
                    id: String::from_str(images[i].id.as_str()),
                    path: String::from_str(images[i].path.as_str()),
                },
            );
            assert(image_views(stale@) =~= before.push(images@[i as int]@));
        }
        i += 1;
    }
    proof {
        assert(image_views(images@).take(images@.len() as int) =~= image_views(images@));
    }
    stale
}

/// An image is picked as stale exactly when it is registered and the body
/// does not hold its reference: an image that the body still embeds is never
/// picked, so neither its row nor its files are touched.
pub proof fn lemma_stale_exactly(content: Seq<char>, images: Seq<ImageSpec>, image: ImageSpec)
    ensures
        stale_of(content, images).contains(image) <==> images.contains(image) && !embeds(
            content,
            image.id,
        ),
    decreases images.len(),
{
    if images.len() > 0 {
        let rest = images.drop_last();
        let last = images.last();
        lemma_stale_exactly(content, rest, image);
        let picked = stale_of(content, rest);
        if rest.contains(image) {
            let j = rest.index_of(image);
            assert(images[j] == image);
        }
        if images.contains(image) {
            let j = images.index_of(image);
            assert(images[j] == image);
            if j < rest.len() {
                assert(rest[j] == image);
            }
        }
        if !embeds(content, last.id) {
            let pushed = picked.push(last);
            assert(pushed[picked.len() as int] == last);
            if picked.contains(image) {
                let j = picked.index_of(image);
                assert(pushed[j] == image);
            }
            if pushed.contains(image) {
                let j = pushed.index_of(image);
                assert(pushed[j] == image);
                if j < picked.len() {
                    assert(picked[j] == image);
                }
            }
        }
    }
}

/// A text passes when its length in bytes lies within the bounds.
pub open spec fn within(text: Seq<char>, min: nat, max: nat) -> bool {
    min <= byte_len(text) <= max
}

/// A required text of an update: not sent is fine, null is refused, a value
/// is trimmed and must then lie within the bounds.
pub open spec fn required_text_spec(p: Patch<Seq<char>>, min: nat, max: nat) -> Result<
    Patch<Seq<char>>,
    Failure,
> {
    match p {
        Patch::Undefined => Ok(Patch::Undefined),
        Patch::Null => Err(Failure::Validation),
        Patch::Value(s) => if within(trimmed(s), min, max) {
            Ok(Patch::Value(trimmed(s)))
        } else {
            Err(Failure::Validation)
        },
    }
}

/// A nullable text of an update: a value is trimmed and must then lie within
/// the bounds; every other state passes as it is.
pub open spec fn optional_text_spec(p: Patch<Option<Seq<char>>>, min: nat, max: nat) -> Result<
    Patch<Option<Seq<char>>>,
    Failure,
> {
    match p {
        Patch::Value(Some(s)) => if within(trimmed(s), min, max) {
            Ok(Patch::Value(Some(trimmed(s))))
        } else {
            Err(Failure::Validation)
        },
        _ => Ok(p),
    }
}

/// A nullable HTML fragment of an update: a value is trimmed and sanitized and
/// must then lie within the bounds; every other state passes as it is.
pub open spec fn optional_html_spec(
    p: Patch<Option<Seq<char>>>,
    tags: Set<Seq<char>>,
    min: nat,
    max: nat,
) -> Result<Patch<Option<Seq<char>>>, Failure> {
    match p {
        Patch::Value(Some(s)) => if within(cleaned(tags, trimmed(s)), min, max) {
            Ok(Patch::Value(Some(cleaned(tags, trimmed(s)))))
        } else {
            Err(Failure::Validation)
        },
        _ => Ok(p),
    }
}

/// Whether a field is left as it is or set to a value. A field whose column
/// takes no null must not be cleared.
pub open spec fn kept<T>(p: Patch<T>) -> bool {
    !(p is Null)
}

/// Refuses a field that was cleared though its column takes no null.
pub fn not_cleared<T>(p: &Patch<T>) -> (r: Result<(), Failure>)
    ensures
        kept(*p) ==> r == Ok::<(), Failure>(()),
        !kept(*p) ==> r == Err::<(), Failure>(Failure::Validation),
{
    match p {
        Patch::Null => Err(Failure::Validation),
        _ => Ok(()),
    }
}

/// An HTML body of an update: not sent is fine, null is refused, a value is
/// trimmed and sanitized and must then lie within the bounds.
pub open spec fn html_spec(p: Patch<Seq<char>>, tags: Set<Seq<char>>, min: nat, max: nat) -> Result<
    Patch<Seq<char>>,
    Failure,
> {
    match p {
        Patch::Undefined => Ok(Patch::Undefined),
        Patch::Null => Err(Failure::Validation),
        Patch::Value(s) => if within(cleaned(tags, trimmed(s)), min, max) {
            Ok(Patch::Value(cleaned(tags, trimmed(s))))
        } else {
            Err(Failure::Validation)
        },
    }
}

/// Lets a text through when its length in bytes lies within the bounds.
pub fn bounded(text: String, min: usize, max: usize) -> (r: Result<String, Failure>)
    ensures
        within(text@, min as nat, max as nat) ==> r == Ok::<String, Failure>(text),
        !within(text@, min as nat, max as nat) ==> r == Err::<String, Failure>(Failure::Validation),
{
    let n = text.as_str().as_bytes().len();
    if min <= n && n <= max {
        Ok(text)
    } else {
        Err(Failure::Validation)
    }
}

/// Checks a required text of an update and trims it.
pub fn required_text(p: &Patch<String>, min: usize, max: usize) -> (r: Result<
    Patch<String>,
    Failure,
>)
    ensures
        match required_text_spec(text_view(*p), min as nat, max as nat) {
            Ok(q) => r is Ok && text_view(r->Ok_0) == q,
            Err(e) => r == Err::<Patch<String>, Failure>(e),
        },
{
    match p {
        Patch::Undefined => Ok(Patch::Undefined),
        Patch::Null => Err(Failure::Validation),
        Patch::Value(s) => match bounded(trim(s.as_str()), min, max) {
            Ok(t) => Ok(Patch::Value(t)),
            Err(e) => Err(e),
        },
    }
}

/// Checks a nullable text of an update and trims it.
pub fn optional_text(p: &Patch<Option<String>>, min: usize, max: usize) -> (r: Result<
    Patch<Option<String>>,
    Failure,
>)
    ensures
        match optional_text_spec(optional_text_view(*p), min as nat, max as nat) {
            Ok(q) => r is Ok && optional_text_view(r->Ok_0) == q,
            Err(e) => r == Err::<Patch<Option<String>>, Failure>(e),
        },
{
    match p {
        Patch::Undefined => Ok(Patch::Undefined),
        Patch::Null => Ok(Patch::Null),
        Patch::Value(None) => Ok(Patch::Value(None)),
        Patch::Value(Some(s)) => match bounded(trim(s.as_str()), min, max) {
            Ok(t) => Ok(Patch::Value(Some(t))),
            Err(e) => Err(e),
        },
    }
}

/// Checks a nullable HTML fragment of an update, trimmed and sanitized.
pub fn optional_html(p: &Patch<Option<String>>, markup: Markup, min: usize, max: usize) -> (r:
    Result<Patch<Option<String>>, Failure>)
    ensures
        match optional_html_spec(optional_text_view(*p), markup.allowed(), min as nat, max as nat) {
            Ok(q) => r is Ok && optional_text_view(r->Ok_0) == q,
            Err(e) => r == Err::<Patch<Option<String>>, Failure>(e),
        },
{
    match p {
        Patch::Undefined => Ok(Patch::Undefined),
        Patch::Null => Ok(Patch::Null),
        Patch::Value(None) => Ok(Patch::Value(None)),
        Patch::Value(Some(s)) => {
            let trimmed_text = trim(s.as_str());
            match bounded(markup.sanitize(trimmed_text.as_str()), min, max) {
                Ok(t) => Ok(Patch::Value(Some(t))),
                Err(e) => Err(e),
            }
        },
    }
}

/// Checks an HTML body of an update, trimmed and sanitized.
pub fn html(p: &Patch<String>, markup: Markup, min: usize, max: usize) -> (r: Result<
    Patch<String>,
    Failure,
>)
    ensures
        match html_spec(text_view(*p), markup.allowed(), min as nat, max as nat) {
            Ok(q) => r is Ok && text_view(r->Ok_0) == q,
            Err(e) => r == Err::<Patch<String>, Failure>(e),
        },
{
    match p {
        Patch::Undefined => Ok(Patch::Undefined),
        Patch::Null => Err(Failure::Validation),
        Patch::Value(s) => {
            let trimmed_text = trim(s.as_str());
            match bounded(markup.sanitize(trimmed_text.as_str()), min, max) {
                Ok(t) => Ok(Patch::Value(t)),
                Err(e) => Err(e),
            }
        },
    }
}

/// The request that updates the site's colours. The logo and the favicon
/// are files and are no fields.
#[derive(Debug, Clone, PartialEq)]
pub struct UpdateParametersForm {
    pub background_color: Patch<String>,
    pub title_color: Patch<String>,
    pub text_color: Patch<String>,
}

impl UpdateParametersForm {
    /// Whether the update may be applied: no colour is cleared.
    pub open spec fn acceptable(self) -> bool {
        kept(self.background_color) && kept(self.title_color) && kept(self.text_color)
    }

    /// The fields of the form, by name.
    pub open spec fn entries(self) -> Seq<(Seq<char>, Option<FieldSpec>)> {
        seq![
            ("background_color"@, text_patch(text_view(self.background_color))),
            ("title_color"@, text_patch(text_view(self.title_color))),
            ("text_color"@, text_patch(text_view(self.text_color))),
        ]
    }
}

/// Checks an update of the settings and builds its field map: the colours
/// that were supplied, as they were sent. The update is refused exactly
/// when a colour is cleared.
pub fn update_settings(form: &UpdateParametersForm) -> (r: Result<FieldMap, Failure>)
    ensures
        r is Ok <==> form.acceptable(),
        r is Err ==> r->Err_0 == Failure::Validation,
        r is Ok ==> r->Ok_0.wf() && r->Ok_0@ == extracted(form.entries()) && r->Ok_0.order()
            == extracted_order(form.entries()),
{
    if not_cleared(&form.background_color).is_err() || not_cleared(&form.title_color).is_err()
        || not_cleared(&form.text_color).is_err() {
        return Err(Failure::Validation);
    }
    let mut fields: Vec<FormField> = Vec::new();
    fields.push(text_field("background_color", &form.background_color));
    fields.push(text_field("title_color", &form.title_color));
    fields.push(text_field("text_color", &form.text_color));
    assert(form_view(fields@) =~= form.entries());
    Ok(extract_fields(&fields))
}

/// The upload of the picture of the home page: the desktop tier only, named
/// `index` and fitted into a thousand pixels each way, with WebP.
pub fn home_image_upload() -> (r: UploadRequest)
    ensures
        r.name@ == "index"@,
        dotless(r.name@),
        r.max_mobile == None::<(u32, u32)>,
        r.max_desktop == Some((1000u32, 1000u32)),
        r.with_webp,
{
    proof {
        reveal_strlit("index");
    }
    UploadRequest {
        name: String::from_str("index"),
        max_mobile: None,
        max_desktop: Some((1000, 1000)),
        with_webp: true,
    }
}

/// The media types that the picture of the home page may have.
pub open spec fn home_image_type(file_type: Seq<char>) -> bool {
    file_type == "image/jpeg"@ || file_type == "image/png"@ || file_type == "image/webp"@
}

/// Whether a file can become the picture of the home page.
pub fn update_home_informations(file_type: &str) -> (r: Result<(), Failure>)
    ensures
        home_image_type(file_type@) ==> r == Ok::<(), Failure>(()),
        !home_image_type(file_type@) ==> r == Err::<(), Failure>(Failure::Validation),
{
    if same_text(file_type, "image/jpeg") || same_text(file_type, "image/png") || same_text(
        file_type,
        "image/webp",
    ) {
        Ok(())
    } else {
        Err(Failure::Validation)
    }
}

} // verus!
