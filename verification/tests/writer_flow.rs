use discogs_release_xml_parser::record::{Artist, Format, Label, Release, Track, Video};
use discogs_release_xml_parser::writer::{
    build_plan, write_begin, write_conclude, write_step, Statement, Table, Value, WriteFailure,
    WritePhase,
};

fn sample_release() -> Release {
    Release {
        id: 321,
        status: b"Accepted".to_vec(),
        data_quality: b"Correct".to_vec(),
        title: b"Live".to_vec(),
        country: Some(b"UK".to_vec()),
        date: Some(b"1976-09-20".to_vec()),
        artists: vec![
            Artist { id: 1, name: b"Lead".to_vec() },
            Artist { id: 2, name: b"Rhythm".to_vec() },
        ],
        labels: vec![Label {
            id: 9,
            catno: b"APLP.016".to_vec(),
            name: b"Albert".to_vec(),
        }],
        formats: vec![Format { name: b"Vinyl".to_vec(), qty: 1 }],
        genres: None,
        styles: None,
        tracklist: vec![
            Track { title: b"One".to_vec() },
            Track { title: b"Two".to_vec() },
            Track { title: b"Three".to_vec() },
        ],
        videos: Some(vec![Video {
            title: b"Clip".to_vec(),
            duration: 215,
            src: b"http://v/1".to_vec(),
        }]),
    }
}

/// A toy target store with the schema's two essential traits: the parent
/// identifier is unique, and every dependent row cascades away when its
/// parent row is deleted.
struct Store {
    parents: Vec<(usize, Vec<Value>)>,
    dependents: Vec<(Table, usize, Vec<Value>)>,
}

impl Store {
    fn new() -> Store {
        Store { parents: vec![], dependents: vec![] }
    }

    /// Applies one statement for the release `id`; `fail_on` forces the
    /// statement against that table to fail.
    fn apply(&mut self, id: usize, stmt: &Statement, fail_on: Option<Table>) -> bool {
        if fail_on == Some(stmt.table) {
            return false;
        }
        if stmt.table == Table::Release {
            if self.parents.iter().any(|(pid, _)| *pid == id) {
                return false; // duplicate primary key
            }
            self.parents.push((id, stmt.rows[0].clone()));
        } else {
            for row in &stmt.rows {
                self.dependents.push((stmt.table, id, row.clone()));
            }
        }
        true
    }

    /// The compensating delete: removes the parent row and, through the
    /// cascading foreign keys, every dependent row of the release.
    fn delete_parent(&mut self, id: usize) -> bool {
        self.parents.retain(|(pid, _)| *pid != id);
        self.dependents.retain(|(_, pid, _)| *pid != id);
        true
    }

    fn dependent_count(&self, id: usize, table: Table) -> usize {
        self.dependents
            .iter()
            .filter(|(t, pid, _)| *t == table && *pid == id)
            .count()
    }

    fn rows_for(&self, id: usize) -> usize {
        self.parents.iter().filter(|(pid, _)| *pid == id).count()
            + self.dependents.iter().filter(|(_, pid, _)| *pid == id).count()
    }
}

/// Drives one whole write attempt against the store, returning the surfaced
/// result and the actions that ran, in order.
fn run_write(
    store: &mut Store,
    rel: &Release,
    fail_on: Option<Table>,
    fail_compensation: bool,
) -> (Result<(), WriteFailure>, Vec<String>) {
    let plan = build_plan(rel);
    let mut phase = write_begin();
    let mut actions: Vec<String> = vec![];
    loop {
        match phase {
            WritePhase::Executing { step } => {
                actions.push(format!("execute {}", step));
                let ok = store.apply(rel.id, &plan[step], fail_on);
                phase = write_step(phase, plan.len(), ok);
            }
            WritePhase::Compensating { .. } => {
                actions.push("compensate".to_string());
                let ok = if fail_compensation { false } else { store.delete_parent(rel.id) };
                phase = write_step(phase, plan.len(), ok);
            }
            _ => return (write_conclude(phase), actions),
        }
    }
}

#[test]
fn plan_layout_skips_unset_groups_and_orders_tables() {
    let rel = sample_release();
    let plan = build_plan(&rel);
    let tables: Vec<Table> = plan.iter().map(|s| s.table).collect();
    // No genre or style statement at all: the groups are unset.
    assert_eq!(
        tables,
        vec![
            Table::Release,
            Table::Track,
            Table::Artist,
            Table::Label,
            Table::Format,
            Table::Video,
        ]
    );

    // The parent row carries the derived year, cut from the date.
    assert_eq!(
        plan[0].rows,
        vec![vec![
            Value::UInt(321),
            Value::Bytes(b"Live".to_vec()),
            Value::Bytes(b"Accepted".to_vec()),
            Value::Bytes(b"Correct".to_vec()),
            Value::Bytes(b"1976".to_vec()),
            Value::Bytes(b"UK".to_vec()),
        ]]
    );

    // Track rows keep fragment order: title, then parent identifier.
    assert_eq!(
        plan[1].rows,
        vec![
            vec![Value::Bytes(b"One".to_vec()), Value::UInt(321)],
            vec![Value::Bytes(b"Two".to_vec()), Value::UInt(321)],
            vec![Value::Bytes(b"Three".to_vec()), Value::UInt(321)],
        ]
    );

    // Artist rows: artist identifier, name, parent identifier.
    assert_eq!(
        plan[2].rows,
        vec![
            vec![Value::UInt(1), Value::Bytes(b"Lead".to_vec()), Value::UInt(321)],
            vec![Value::UInt(2), Value::Bytes(b"Rhythm".to_vec()), Value::UInt(321)],
        ]
    );

    // Label rows: label identifier, name, catalog number, parent identifier.
    assert_eq!(
        plan[3].rows,
        vec![vec![
            Value::UInt(9),
            Value::Bytes(b"Albert".to_vec()),
            Value::Bytes(b"APLP.016".to_vec()),
            Value::UInt(321),
        ]]
    );

    // Format rows: name, quantity, parent identifier.
    assert_eq!(
        plan[4].rows,
        vec![vec![
            Value::Bytes(b"Vinyl".to_vec()),
            Value::UInt(1),
            Value::UInt(321),
        ]]
    );

    // Video rows: title, duration, source URL, parent identifier.
    assert_eq!(
        plan[5].rows,
        vec![vec![
            Value::Bytes(b"Clip".to_vec()),
            Value::UInt(215),
            Value::Bytes(b"http://v/1".to_vec()),
            Value::UInt(321),
        ]]
    );
}

#[test]
fn plan_writes_present_but_empty_groups_as_zero_row_statements() {
    let mut rel = sample_release();
    rel.genres = Some(vec![]);
    rel.styles = Some(vec![b"Hard Rock".to_vec()]);
    let plan = build_plan(&rel);
    let tables: Vec<Table> = plan.iter().map(|s| s.table).collect();
    assert_eq!(
        tables,
        vec![
            Table::Release,
            Table::Track,
            Table::Genre,
            Table::Style,
            Table::Artist,
            Table::Label,
            Table::Format,
            Table::Video,
        ]
    );
    assert_eq!(plan[2].rows.len(), 0);
    assert_eq!(
        plan[3].rows,
        vec![vec![Value::Bytes(b"Hard Rock".to_vec()), Value::UInt(321)]]
    );
}

#[test]
fn clean_run_commits_every_statement() {
    let rel = sample_release();
    let mut store = Store::new();
    let (result, actions) = run_write(&mut store, &rel, None, false);
    assert_eq!(result, Ok(()));
    assert_eq!(
        actions,
        vec![
            "execute 0",
            "execute 1",
            "execute 2",
            "execute 3",
            "execute 4",
            "execute 5",
        ]
    );
    assert_eq!(store.rows_for(321), 1 + 3 + 2 + 1 + 1 + 1);
}

#[test]
fn artist_insert_failure_rolls_everything_back() {
    // A fragment with 3 tracks, 2 artists, 1 label, 1 format, no genres, no
    // styles, 1 video, where the artist insert is forced to fail.
    let rel = sample_release();
    let mut store = Store::new();
    let plan = build_plan(&rel);
    let (result, actions) = run_write(&mut store, &rel, Some(Table::Artist), false);

    // Parent and track rows were written, then the compensating delete
    // cascaded them away; label, format and video rows never ran at all.
    assert_eq!(
        actions,
        vec!["execute 0", "execute 1", "execute 2", "compensate"]
    );
    assert_eq!(store.rows_for(321), 0);
    assert_eq!(store.dependent_count(321, Table::Track), 0);
    assert_eq!(store.dependent_count(321, Table::Label), 0);
    assert_eq!(store.dependent_count(321, Table::Format), 0);
    assert_eq!(store.dependent_count(321, Table::Video), 0);

    // The surfaced error names the artist insert, not a corruption.
    match result {
        Err(WriteFailure::Statement { step }) => assert_eq!(plan[step].table, Table::Artist),
        other => panic!("expected the artist statement's failure, got {:?}", other),
    }
}

#[test]
fn failed_compensation_is_surfaced_as_corruption() {
    let rel = sample_release();
    let mut store = Store::new();
    let plan = build_plan(&rel);
    let (result, actions) = run_write(&mut store, &rel, Some(Table::Label), true);
    assert_eq!(
        actions,
        vec!["execute 0", "execute 1", "execute 2", "execute 3", "compensate"]
    );
    match result {
        Err(WriteFailure::Compensation { step }) => assert_eq!(plan[step].table, Table::Label),
        other => panic!("expected a compensation failure, got {:?}", other),
    }
}

#[test]
fn second_run_fails_at_parent_insert_without_compensation() {
    // Running the same record twice: the duplicate primary key makes the
    // second parent insert fail, which aborts at once — no dependent rows
    // are written for it, and no compensating delete fires, since nothing
    // was written.
    let rel = sample_release();
    let mut store = Store::new();
    let (first, _) = run_write(&mut store, &rel, None, false);
    assert_eq!(first, Ok(()));
    let rows_after_first = store.rows_for(321);

    let (second, actions) = run_write(&mut store, &rel, None, false);
    assert_eq!(second, Err(WriteFailure::Statement { step: 0 }));
    assert_eq!(actions, vec!["execute 0"]);
    // The first run's rows stand untouched; the second added none.
    assert_eq!(store.rows_for(321), rows_after_first);
}
