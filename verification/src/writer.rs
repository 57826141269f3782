//! The multi-table transactional writer.
//!
//! A decoded release is persisted across one parent table and up to seven
//! dependent tables. The writer itself performs no I/O: it lays the writes
//! out as a **plan** — one batched statement per table, in a fixed order —
//! and a small **state machine** says, after each statement's outcome, what
//! to do next. A failure of the parent insert aborts immediately (nothing
//! was written); a failure of any later statement asks for one compensating
//! delete of the parent row, which the target schema's cascading foreign
//! keys propagate to every dependent row already written. A failed
//! compensation is an unrecoverable corruption of the target store.

use vstd::prelude::*;

use crate::events::push_bytes;
use crate::record::{derived_year, derived_year_spec, ArtistV, FormatV, LabelV, Release, ReleaseV,
    TrackV, Video, VideoV};

verus! {

/// One column value of a planned statement.
#[derive(Debug, Clone, PartialEq, Eq)]
pub enum Value {
    /// An unsigned integer column.
    UInt(usize),
    /// A text column, as the fragment's bytes.
    Bytes(Vec<u8>),
    /// An absent nullable column.
    Null,
}

/// Mathematical mirror of [`Value`].
pub enum ValueV {
    UInt(usize),
    Bytes(Seq<u8>),
    Null,
}

impl View for Value {
    type V = ValueV;

    open spec fn view(&self) -> ValueV {
        match self {
            Value::UInt(n) => ValueV::UInt(*n),
            Value::Bytes(b) => ValueV::Bytes(b@),
            Value::Null => ValueV::Null,
        }
    }
}

/// The target tables, one per statement of a plan.
#[derive(Clone, Copy, Debug, PartialEq, Eq, Structural)]
pub enum Table {
    Release,
    Track,
    Genre,
    Style,
    Artist,
    Label,
    Format,
    Video,
}

/// One batched insert: every row of `rows` goes into `table`.
#[derive(Debug, Clone, PartialEq, Eq)]
pub struct Statement {
    pub table: Table,
    pub rows: Vec<Vec<Value>>,
}

/// Mathematical mirror of [`Statement`].
pub struct StmtV {
    pub table: Table,
    pub rows: Seq<Seq<ValueV>>,
}

/// The views of one row's values.
pub open spec fn row_view(row: Vec<Value>) -> Seq<ValueV> {
    row@.map_values(|v: Value| v@)
}

impl View for Statement {
    type V = StmtV;

    open spec fn view(&self) -> StmtV {
        StmtV { table: self.table, rows: self.rows@.map_values(|row: Vec<Value>| row_view(row)) }
    }
}

/// The views of a sequence of statements.
pub open spec fn plan_view(p: Seq<Statement>) -> Seq<StmtV> {
    p.map_values(|s: Statement| s@)
}

/// The parent row: release identity, scalar fields, and the derived year.
pub open spec fn parent_row_spec(r: ReleaseV) -> Seq<ValueV> {
    seq![
        ValueV::UInt(r.id),
        ValueV::Bytes(r.title),
        ValueV::Bytes(r.status),
        ValueV::Bytes(r.data_quality),
        match derived_year_spec(r.date) {
            Some(y) => ValueV::Bytes(y),
            None => ValueV::Null,
        },
        match r.country {
            Some(c) => ValueV::Bytes(c),
            None => ValueV::Null,
        },
    ]
}

/// One track row: title and parent identifier.
pub open spec fn track_rows_spec(r: ReleaseV) -> Seq<Seq<ValueV>> {
    r.tracklist.map_values(|t: TrackV| seq![ValueV::Bytes(t.title), ValueV::UInt(r.id)])
}

/// One genre or style row: name and parent identifier.
pub open spec fn name_rows_spec(names: Seq<Seq<u8>>, id: usize) -> Seq<Seq<ValueV>> {
    names.map_values(|n: Seq<u8>| seq![ValueV::Bytes(n), ValueV::UInt(id)])
}

/// One artist row: artist identifier, name, parent identifier.
pub open spec fn artist_rows_spec(r: ReleaseV) -> Seq<Seq<ValueV>> {
    r.artists.map_values(
        |a: ArtistV| seq![ValueV::UInt(a.id), ValueV::Bytes(a.name), ValueV::UInt(r.id)],
    )
}

/// One label row: label identifier, name, catalog number, parent identifier.
pub open spec fn label_rows_spec(r: ReleaseV) -> Seq<Seq<ValueV>> {
    r.labels.map_values(
        |l: LabelV| seq![
            ValueV::UInt(l.id),
            ValueV::Bytes(l.name),
            ValueV::Bytes(l.catno),
            ValueV::UInt(r.id),
        ],
    )
}

/// One format row: name, quantity, parent identifier.
pub open spec fn format_rows_spec(r: ReleaseV) -> Seq<Seq<ValueV>> {
    r.formats.map_values(
        |f: FormatV| seq![ValueV::Bytes(f.name), ValueV::UInt(f.qty), ValueV::UInt(r.id)],
    )
}

/// One video row: title, duration, source URL, parent identifier.
pub open spec fn video_rows_spec(r: ReleaseV) -> Seq<Seq<ValueV>> {
    r.videos.unwrap().map_values(
        |v: VideoV| seq![
            ValueV::Bytes(v.title),
            ValueV::UInt(v.duration),
            ValueV::Bytes(v.src),
            ValueV::UInt(r.id),
        ],
    )
}

/// The whole write plan of one release, strictly in write order: the parent
/// insert, then tracks, genres, styles, artists, labels, formats, videos.
/// An unset optional group (genres, styles, videos) contributes no statement
/// at all; a present group contributes one, even when it is empty.
pub open spec fn plan_spec(r: ReleaseV) -> Seq<StmtV> {
    seq![
        StmtV { table: Table::Release, rows: seq![parent_row_spec(r)] },
        StmtV { table: Table::Track, rows: track_rows_spec(r) },
    ] + (match r.genres {
        Some(g) => seq![StmtV { table: Table::Genre, rows: name_rows_spec(g, r.id) }],
        None => Seq::empty(),
    }) + (match r.styles {
        Some(s) => seq![StmtV { table: Table::Style, rows: name_rows_spec(s, r.id) }],
        None => Seq::empty(),
    }) + seq![
        StmtV { table: Table::Artist, rows: artist_rows_spec(r) },
        StmtV { table: Table::Label, rows: label_rows_spec(r) },
        StmtV { table: Table::Format, rows: format_rows_spec(r) },
    ] + (match r.videos {
        Some(_) => seq![StmtV { table: Table::Video, rows: video_rows_spec(r) }],
        None => Seq::empty(),
    })
}

/// A fresh copy of a byte vector.
fn clone_bytes(v: &Vec<u8>) -> (c: Vec<u8>)
    ensures
        c@ == v@,
{
    let mut c: Vec<u8> = Vec::new();
    push_bytes(&mut c, v);
    c
}

/// A text column from a byte vector.
fn bytes_value(v: &Vec<u8>) -> (r: Value)
    ensures
        r@ == ValueV::Bytes(v@),
{
    Value::Bytes(clone_bytes(v))
}

/// The parent insert statement of one release.
fn parent_statement(r: &Release) -> (s: Statement)
    ensures
        s@ == (StmtV { table: Table::Release, rows: seq![parent_row_spec(r@)] }),
{
    let mut row: Vec<Value> = Vec::new();
    row.push(Value::UInt(r.id));
    row.push(bytes_value(&r.title));
    row.push(bytes_value(&r.status));
    row.push(bytes_value(&r.data_quality));
    match derived_year(&r.date) {
        Some(y) => row.push(Value::Bytes(y)),
        None => row.push(Value::Null),
    }
    match &r.country {
        Some(c) => row.push(bytes_value(c)),
        None => row.push(Value::Null),
    }
    assert(row_view(row) =~= parent_row_spec(r@));
    let mut rows: Vec<Vec<Value>> = Vec::new();
    rows.push(row);
    let s = Statement { table: Table::Release, rows };
    assert(s@.rows =~= seq![parent_row_spec(r@)]);
    s
}

/// The batched track insert of one release, rows in fragment order.
fn track_statement(r: &Release) -> (s: Statement)
    ensures
        s@ == (StmtV { table: Table::Track, rows: track_rows_spec(r@) }),
{
    let ghost spec_rows = track_rows_spec(r@);
    let mut rows: Vec<Vec<Value>> = Vec::new();
    let mut i: usize = 0;
    while i < r.tracklist.len()
        invariant
            spec_rows == track_rows_spec(r@),
            spec_rows.len() == r.tracklist@.len(),
            i <= r.tracklist@.len(),
            rows@.len() == i,
            forall|j: int| 0 <= j < i ==> row_view(rows@[j]) == spec_rows[j],
        decreases r.tracklist@.len() - i,
    {
        let mut row: Vec<Value> = Vec::new();
        row.push(bytes_value(&r.tracklist[i].title));
        row.push(Value::UInt(r.id));
        assert(row_view(row) =~= spec_rows[i as int]);
        rows.push(row);
        i += 1;
    }
    let s = Statement { table: Table::Track, rows };
    assert(s@.rows =~= spec_rows);
    s
}

/// The batched genre or style insert of one release, rows in fragment order.
fn name_list_statement(table: Table, names: &Vec<Vec<u8>>, id: usize) -> (s: Statement)
    ensures
        s@ == (StmtV { table, rows: name_rows_spec(crate::record::bytes_of(names@), id) }),
{
    let ghost spec_rows = name_rows_spec(crate::record::bytes_of(names@), id);
    let mut rows: Vec<Vec<Value>> = Vec::new();
    let mut i: usize = 0;
    while i < names.len()
        invariant
            spec_rows == name_rows_spec(crate::record::bytes_of(names@), id),
            spec_rows.len() == names@.len(),
            i <= names@.len(),
            rows@.len() == i,
            forall|j: int| 0 <= j < i ==> row_view(rows@[j]) == spec_rows[j],
        decreases names@.len() - i,
    {
        let mut row: Vec<Value> = Vec::new();
        row.push(bytes_value(&names[i]));
        row.push(Value::UInt(id));
        assert(row_view(row) =~= spec_rows[i as int]);
        rows.push(row);
        i += 1;
    }
    let s = Statement { table, rows };
    assert(s@.rows =~= spec_rows);
    s
}

/// The batched artist insert of one release, rows in fragment order.
fn artist_statement(r: &Release) -> (s: Statement)
    ensures
        s@ == (StmtV { table: Table::Artist, rows: artist_rows_spec(r@) }),
{
    let ghost spec_rows = artist_rows_spec(r@);
    let mut rows: Vec<Vec<Value>> = Vec::new();
    let mut i: usize = 0;
    while i < r.artists.len()
        invariant
            spec_rows == artist_rows_spec(r@),
            spec_rows.len() == r.artists@.len(),
            i <= r.artists@.len(),
            rows@.len() == i,
            forall|j: int| 0 <= j < i ==> row_view(rows@[j]) == spec_rows[j],
        decreases r.artists@.len() - i,
    {
        let mut row: Vec<Value> = Vec::new();
        row.push(Value::UInt(r.artists[i].id));
        row.push(bytes_value(&r.artists[i].name));
        row.push(Value::UInt(r.id));
        assert(row_view(row) =~= spec_rows[i as int]);
        rows.push(row);
        i += 1;
    }
    let s = Statement { table: Table::Artist, rows };
    assert(s@.rows =~= spec_rows);
    s
}

/// The batched label insert of one release, rows in fragment order.
fn label_statement(r: &Release) -> (s: Statement)
    ensures
        s@ == (StmtV { table: Table::Label, rows: label_rows_spec(r@) }),
{
    let ghost spec_rows = label_rows_spec(r@);
    let mut rows: Vec<Vec<Value>> = Vec::new();
    let mut i: usize = 0;
    while i < r.labels.len()
        invariant
            spec_rows == label_rows_spec(r@),
            spec_rows.len() == r.labels@.len(),
            i <= r.labels@.len(),
            rows@.len() == i,
            forall|j: int| 0 <= j < i ==> row_view(rows@[j]) == spec_rows[j],
        decreases r.labels@.len() - i,
    {
        let mut row: Vec<Value> = Vec::new();
        row.push(Value::UInt(r.labels[i].id));
        row.push(bytes_value(&r.labels[i].name));
        row.push(bytes_value(&r.labels[i].catno));
        row.push(Value::UInt(r.id));
        assert(row_view(row) =~= spec_rows[i as int]);
        rows.push(row);
        i += 1;
    }
    let s = Statement { table: Table::Label, rows };
    assert(s@.rows =~= spec_rows);
    s
}

/// The batched format insert of one release, rows in fragment order.
fn format_statement(r: &Release) -> (s: Statement)
    ensures
        s@ == (StmtV { table: Table::Format, rows: format_rows_spec(r@) }),
{
    let ghost spec_rows = format_rows_spec(r@);
    let mut rows: Vec<Vec<Value>> = Vec::new();
    let mut i: usize = 0;
    while i < r.formats.len()
        invariant
            spec_rows == format_rows_spec(r@),
            spec_rows.len() == r.formats@.len(),
            i <= r.formats@.len(),
            rows@.len() == i,
            forall|j: int| 0 <= j < i ==> row_view(rows@[j]) == spec_rows[j],
        decreases r.formats@.len() - i,
    {
        let mut row: Vec<Value> = Vec::new();
        row.push(bytes_value(&r.formats[i].name));
        row.push(Value::UInt(r.formats[i].qty));
        row.push(Value::UInt(r.id));
        assert(row_view(row) =~= spec_rows[i as int]);
        rows.push(row);
        i += 1;
    }
    let s = Statement { table: Table::Format, rows };
    assert(s@.rows =~= spec_rows);
    s
}

/// The batched video insert of one release, rows in fragment order.
fn video_statement(r: &Release, videos: &Vec<Video>) -> (s: Statement)
    requires
        r.videos matches Some(v) && v@ == videos@,
    ensures
        s@ == (StmtV { table: Table::Video, rows: video_rows_spec(r@) }),
{
    let ghost spec_rows = video_rows_spec(r@);
    let mut rows: Vec<Vec<Value>> = Vec::new();
    let mut i: usize = 0;
    while i < videos.len()
        invariant
            spec_rows == video_rows_spec(r@),
            spec_rows.len() == videos@.len(),
            r.videos matches Some(v) && v@ == videos@,
            i <= videos@.len(),
            rows@.len() == i,
            forall|j: int| 0 <= j < i ==> row_view(rows@[j]) == spec_rows[j],
        decreases videos@.len() - i,
    {
        let mut row: Vec<Value> = Vec::new();
        row.push(bytes_value(&videos[i].title));
        row.push(Value::UInt(videos[i].duration));
        row.push(bytes_value(&videos[i].src));
        row.push(Value::UInt(r.id));
        assert(row_view(row) =~= spec_rows[i as int]);
        rows.push(row);
        i += 1;
    }
    let s = Statement { table: Table::Video, rows };
    assert(s@.rows =~= spec_rows);
    s
}

/// Lays out the whole write plan of one release, in write order.
pub fn build_plan(r: &Release) -> (p: Vec<Statement>)
    ensures
        plan_view(p@) == plan_spec(r@),
{
    let mut p: Vec<Statement> = Vec::new();
    p.push(parent_statement(r));
    p.push(track_statement(r));
    match &r.genres {
        Some(g) => {
            p.push(name_list_statement(Table::Genre, g, r.id));
        },
        None => {},
    }
    match &r.styles {
        Some(s) => {
            p.push(name_list_statement(Table::Style, s, r.id));
        },
        None => {},
    }
    p.push(artist_statement(r));
    p.push(label_statement(r));
    p.push(format_statement(r));
    match &r.videos {
        Some(v) => {
            p.push(video_statement(r, v));
        },
        None => {},
    }
    assert(plan_view(p@) =~= plan_spec(r@));
    p
}

/// Law: an unset optional group contributes no statement. A release whose
/// genre, style or video group is unset has no statement against that
/// group's table anywhere in its plan — the insert is skipped entirely, not
/// executed with zero rows.
pub proof fn lemma_unset_group_skipped(r: ReleaseV)
    ensures
        r.genres is None ==> forall|i: int|
            0 <= i < plan_spec(r).len() ==> (#[trigger] plan_spec(r)[i]).table != Table::Genre,
        r.styles is None ==> forall|i: int|
            0 <= i < plan_spec(r).len() ==> (#[trigger] plan_spec(r)[i]).table != Table::Style,
        r.videos is None ==> forall|i: int|
            0 <= i < plan_spec(r).len() ==> (#[trigger] plan_spec(r)[i]).table != Table::Video,
{
}

/// Law: a present optional group contributes exactly one statement, even
/// when the group is empty: its rows are the group's rows, one per
/// occurrence.
pub proof fn lemma_present_group_written(r: ReleaseV)
    ensures
        r.genres matches Some(g) ==> exists|i: int|
            0 <= i < plan_spec(r).len() && #[trigger] plan_spec(r)[i] == (StmtV {
                table: Table::Genre,
                rows: name_rows_spec(g, r.id),
            }),
        r.styles matches Some(s) ==> exists|i: int|
            0 <= i < plan_spec(r).len() && #[trigger] plan_spec(r)[i] == (StmtV {
                table: Table::Style,
                rows: name_rows_spec(s, r.id),
            }),
        r.videos is Some ==> exists|i: int|
            0 <= i < plan_spec(r).len() && #[trigger] plan_spec(r)[i] == (StmtV {
                table: Table::Video,
                rows: video_rows_spec(r),
            }),
{
    if r.genres is Some {
        assert(plan_spec(r)[2].table == Table::Genre);
    }
    if r.styles is Some {
        let gi: int = if r.genres is Some {
            3
        } else {
            2
        };
        assert(plan_spec(r)[gi].table == Table::Style);
    }
    if r.videos is Some {
        let vi = plan_spec(r).len() - 1;
        assert(plan_spec(r)[vi].table == Table::Video);
    }
}

/// Where the writer stands between statements.
#[derive(Clone, Copy, Debug, PartialEq, Eq, Structural)]
pub enum WritePhase {
    /// The statement at `step` of the plan is to be executed next.
    Executing { step: usize },
    /// The statement at `failed` failed after the parent insert succeeded:
    /// the compensating delete of the parent row is to be issued next.
    Compensating { failed: usize },
    /// Every statement succeeded.
    Done,
    /// The parent insert itself failed: nothing was written, so no
    /// compensation is needed and none may be issued.
    Aborted,
    /// The statement at `failed` failed and the compensating delete
    /// succeeded: the cascade removed every row already written.
    RolledBack { failed: usize },
    /// The compensating delete itself failed: the target store may hold a
    /// partial record that cannot be cleaned up automatically.
    Corrupt { failed: usize },
}

/// Whether a phase ends the write attempt.
pub open spec fn phase_is_terminal(p: WritePhase) -> bool {
    match p {
        WritePhase::Executing { .. } => false,
        WritePhase::Compensating { .. } => false,
        _ => true,
    }
}

/// The writer's next phase once the pending action's outcome is known:
/// `ok` says whether the statement (or the compensating delete) succeeded.
pub open spec fn step_spec(p: WritePhase, plan_len: int, ok: bool) -> WritePhase {
    match p {
        WritePhase::Executing { step } => {
            if ok {
                if step + 1 < plan_len {
                    WritePhase::Executing { step: (step + 1) as usize }
                } else {
                    WritePhase::Done
                }
            } else {
                if step == 0 {
                    WritePhase::Aborted
                } else {
                    WritePhase::Compensating { failed: step }
                }
            }
        },
        WritePhase::Compensating { failed } => {
            if ok {
                WritePhase::RolledBack { failed }
            } else {
                WritePhase::Corrupt { failed }
            }
        },
        _ => p,
    }
}

/// Starts a write attempt: the parent insert comes first.
pub fn write_begin() -> (p: WritePhase)
    ensures
        p == (WritePhase::Executing { step: 0 }),
{
    WritePhase::Executing { step: 0 }
}

/// Advances the writer by one observed outcome.
///
/// The caller executes the statement (or the compensating delete) that the
/// current phase names, then reports whether it succeeded.
pub fn write_step(p: WritePhase, plan_len: usize, ok: bool) -> (n: WritePhase)
    requires
        !phase_is_terminal(p),
        p matches WritePhase::Executing { step } ==> step < plan_len,
    ensures
        n == step_spec(p, plan_len as int, ok),
{
    match p {
        WritePhase::Executing { step } => {
            if ok {
                if step + 1 < plan_len {
                    WritePhase::Executing { step: step + 1 }
                } else {
                    WritePhase::Done
                }
            } else {
                if step == 0 {
                    WritePhase::Aborted
                } else {
                    WritePhase::Compensating { failed: step }
                }
            }
        },
        WritePhase::Compensating { failed } => {
            if ok {
                WritePhase::RolledBack { failed }
            } else {
                WritePhase::Corrupt { failed }
            }
        },
        _ => p,
    }
}

/// How a finished write attempt is surfaced to the caller.
#[derive(Clone, Copy, Debug, PartialEq, Eq, Structural)]
pub enum WriteFailure {
    /// The statement at `step` of the plan failed; all-or-nothing held:
    /// either nothing was written (`step` 0) or the cascade removed it.
    Statement { step: usize },
    /// The statement at `step` failed and so did the compensating delete:
    /// the target store may be inconsistent and the run must stop.
    Compensation { step: usize },
}

/// Reads a finished write attempt's result: the surfaced error is the
/// original statement failure, unless compensation also failed, in which
/// case the corruption takes priority.
pub fn write_conclude(p: WritePhase) -> (r: Result<(), WriteFailure>)
    requires
        phase_is_terminal(p),
    ensures
        p is Done <==> r is Ok,
        p is Aborted ==> r == Err::<(), WriteFailure>(WriteFailure::Statement { step: 0 }),
        p matches WritePhase::RolledBack { failed } ==> r == Err::<(), WriteFailure>(
            WriteFailure::Statement { step: failed },
        ),
        p matches WritePhase::Corrupt { failed } ==> r == Err::<(), WriteFailure>(
            WriteFailure::Compensation { step: failed },
        ),
{
    match p {
        WritePhase::Done => Ok(()),
        WritePhase::Aborted => Err(WriteFailure::Statement { step: 0 }),
        WritePhase::RolledBack { failed } => Err(WriteFailure::Statement { step: failed }),
        WritePhase::Corrupt { failed } => Err(WriteFailure::Compensation { step: failed }),
        _ => Err(WriteFailure::Statement { step: 0 }),
    }
}

/// One action a write attempt asks of the target store.
pub enum WriteAction {
    /// Execute the statement at `step` of the plan.
    Execute { step: int },
    /// Issue the compensating delete of the parent row.
    Compensate,
}

/// The phase a run of outcomes leads to, starting at `p` with outcome `k`.
pub open spec fn run_from(p: WritePhase, plan_len: int, outcomes: Seq<bool>, k: int) -> WritePhase
    decreases outcomes.len() - k,
{
    if phase_is_terminal(p) || k < 0 || k >= outcomes.len() {
        p
    } else {
        run_from(step_spec(p, plan_len, outcomes[k]), plan_len, outcomes, k + 1)
    }
}

/// Every action a run of outcomes asks for, in order, starting at `p` with
/// outcome `k`: outcome `k` answers the first action asked from phase `p`.
pub open spec fn actions_from(p: WritePhase, plan_len: int, outcomes: Seq<bool>, k: int) -> Seq<
    WriteAction,
>
    decreases outcomes.len() - k,
{
    if phase_is_terminal(p) || k < 0 || k >= outcomes.len() {
        Seq::empty()
    } else {
        (match p {
            WritePhase::Executing { step } => seq![WriteAction::Execute { step: step as int }],
            WritePhase::Compensating { .. } => seq![WriteAction::Compensate],
            _ => Seq::empty(),
        }) + actions_from(step_spec(p, plan_len, outcomes[k]), plan_len, outcomes, k + 1)
    }
}

/// The phase and actions of a whole write attempt under the given outcomes.
pub open spec fn run_spec(plan_len: int, outcomes: Seq<bool>) -> WritePhase {
    run_from(WritePhase::Executing { step: 0 }, plan_len, outcomes, 0)
}

/// See [`run_spec`].
pub open spec fn actions_spec(plan_len: int, outcomes: Seq<bool>) -> Seq<WriteAction> {
    actions_from(WritePhase::Executing { step: 0 }, plan_len, outcomes, 0)
}

/// Law: a failure of the very first statement — the parent insert — aborts
/// the attempt at once. The only action ever asked for is that one insert:
/// no dependent statement runs and no compensating delete fires, because
/// nothing was written.
pub proof fn lemma_parent_failure_aborts(plan_len: int, outcomes: Seq<bool>)
    requires
        plan_len >= 1,
        outcomes.len() >= 1,
        !outcomes[0],
    ensures
        run_spec(plan_len, outcomes) == WritePhase::Aborted,
        actions_spec(plan_len, outcomes) == seq![WriteAction::Execute { step: 0 }],
{
    assert(step_spec(WritePhase::Executing { step: 0 }, plan_len, outcomes[0])
        == WritePhase::Aborted);
    assert(run_from(WritePhase::Aborted, plan_len, outcomes, 1) == WritePhase::Aborted);
    assert(actions_from(WritePhase::Aborted, plan_len, outcomes, 1) =~= Seq::<
        WriteAction,
    >::empty());
    assert(actions_spec(plan_len, outcomes) =~= seq![WriteAction::Execute { step: 0 }]);
}

proof fn lemma_run_success_prefix(plan_len: int, outcomes: Seq<bool>, i: int, k: int, n: int)
    requires
        0 <= i,
        i + n <= plan_len,
        0 <= k,
        k + n <= outcomes.len(),
        i + n <= usize::MAX,
        forall|j: int| k <= j < k + n ==> outcomes[j],
        n >= 0,
    ensures
        n < plan_len - i ==> run_from(WritePhase::Executing { step: i as usize }, plan_len, outcomes, k)
            == run_from(WritePhase::Executing { step: (i + n) as usize }, plan_len, outcomes, k + n),
        n < plan_len - i ==> actions_from(
            WritePhase::Executing { step: i as usize },
            plan_len,
            outcomes,
            k,
        ) == Seq::new(n as nat, |t: int| WriteAction::Execute { step: i + t }) + actions_from(
            WritePhase::Executing { step: (i + n) as usize },
            plan_len,
            outcomes,
            k + n,
        ),
    decreases n,
{
    if n > 0 && n < plan_len - i {
        lemma_run_success_prefix(plan_len, outcomes, i + 1, k + 1, n - 1);
        assert(step_spec(WritePhase::Executing { step: i as usize }, plan_len, outcomes[k])
            == WritePhase::Executing { step: (i + 1) as usize });
        assert(seq![WriteAction::Execute { step: i }] + (Seq::new(
            (n - 1) as nat,
            |t: int| WriteAction::Execute { step: i + 1 + t },
        ) + actions_from(
            WritePhase::Executing { step: (i + n) as usize },
            plan_len,
            outcomes,
            k + n,
        )) =~= Seq::new(n as nat, |t: int| WriteAction::Execute { step: i + t }) + actions_from(
            WritePhase::Executing { step: (i + n) as usize },
            plan_len,
            outcomes,
            k + n,
        ));
    } else {
        assert(Seq::new(0nat, |t: int| WriteAction::Execute { step: i + t }) =~= Seq::empty());
    }
}

/// Law: when a statement after the parent insert fails and the compensating
/// delete succeeds, the attempt ends rolled back. The actions asked for are
/// exactly the statements up to and including the failing one, followed by
/// one compensating delete — nothing later in the plan ever runs — and the
/// surfaced failure names the failing statement, not a corruption.
pub proof fn lemma_failed_step_compensates(plan_len: int, outcomes: Seq<bool>, f: int)
    requires
        0 < f < plan_len,
        plan_len <= usize::MAX,
        outcomes.len() == f + 2,
        forall|j: int| 0 <= j < f ==> outcomes[j],
        !outcomes[f],
        outcomes[f + 1],
    ensures
        run_spec(plan_len, outcomes) == (WritePhase::RolledBack { failed: f as usize }),
        actions_spec(plan_len, outcomes) == Seq::new(
            (f + 1) as nat,
            |t: int| WriteAction::Execute { step: t },
        ) + seq![WriteAction::Compensate],
{
    lemma_run_success_prefix(plan_len, outcomes, 0, 0, f);
    assert(step_spec(WritePhase::Executing { step: f as usize }, plan_len, outcomes[f])
        == WritePhase::Compensating { failed: f as usize });
    assert(step_spec(WritePhase::Compensating { failed: f as usize }, plan_len, outcomes[f + 1])
        == WritePhase::RolledBack { failed: f as usize });
    assert(run_from(WritePhase::RolledBack { failed: f as usize }, plan_len, outcomes, f + 2)
        == WritePhase::RolledBack { failed: f as usize });
    assert(run_from(WritePhase::Compensating { failed: f as usize }, plan_len, outcomes, f + 1)
        == WritePhase::RolledBack { failed: f as usize });
    assert(run_from(WritePhase::Executing { step: f as usize }, plan_len, outcomes, f)
        == WritePhase::RolledBack { failed: f as usize });
    assert(actions_from(WritePhase::RolledBack { failed: f as usize }, plan_len, outcomes, f + 2)
        =~= Seq::<WriteAction>::empty());
    assert(actions_from(WritePhase::Compensating { failed: f as usize }, plan_len, outcomes, f + 1)
        =~= seq![WriteAction::Compensate]);
    assert(actions_from(WritePhase::Executing { step: f as usize }, plan_len, outcomes, f)
        =~= seq![WriteAction::Execute { step: f }, WriteAction::Compensate]);
    assert(actions_spec(plan_len, outcomes) =~= Seq::new(
        (f + 1) as nat,
        |t: int| WriteAction::Execute { step: t },
    ) + seq![WriteAction::Compensate]);
}

/// Law: when every statement succeeds the attempt commits, and the actions
/// asked for are exactly the plan's statements in order, with no
/// compensating delete.
pub proof fn lemma_clean_run_commits(plan_len: int, outcomes: Seq<bool>)
    requires
        1 <= plan_len <= usize::MAX,
        outcomes.len() == plan_len,
        forall|j: int| 0 <= j < plan_len ==> outcomes[j],
    ensures
        run_spec(plan_len, outcomes) == WritePhase::Done,
        actions_spec(plan_len, outcomes) == Seq::new(
            plan_len as nat,
            |t: int| WriteAction::Execute { step: t },
        ),
{
    lemma_run_success_prefix(plan_len, outcomes, 0, 0, plan_len - 1);
    assert(step_spec(
        WritePhase::Executing { step: (plan_len - 1) as usize },
        plan_len,
        outcomes[plan_len - 1],
    ) == WritePhase::Done);
    assert(run_from(WritePhase::Done, plan_len, outcomes, plan_len) == WritePhase::Done);
    assert(run_from(
        WritePhase::Executing { step: (plan_len - 1) as usize },
        plan_len,
        outcomes,
        plan_len - 1,
    ) == WritePhase::Done);
    assert(actions_from(WritePhase::Done, plan_len, outcomes, plan_len) =~= Seq::<
        WriteAction,
    >::empty());
    assert(actions_from(
        WritePhase::Executing { step: (plan_len - 1) as usize },
        plan_len,
        outcomes,
        plan_len - 1,
    ) =~= seq![WriteAction::Execute { step: plan_len - 1 }]);
    assert(actions_spec(plan_len, outcomes) =~= Seq::new(
        plan_len as nat,
        |t: int| WriteAction::Execute { step: t },
    ));
}

} // verus!
