//! `castors list`: the registered castors with their container status.

use vstd::prelude::*;

use crate::base::domain::home_dir;
use crate::base::registry::{representable, rfc3339, rfc3339_text, CreatedAt, EntryView, Registry};
use crate::cli::display::{display_path, format_path_with};
use crate::engine::docker::castors::container_views;
use crate::engine::types::{CastorStatus, EngineError, ManagedContainer};
use crate::engine::Engine;
use crate::text::{owned, str_eq};

verus! {

/// The label of a container status.
pub open spec fn label_of(status: CastorStatus) -> Seq<char> {
    match status {
        CastorStatus::Running => "running"@,
        CastorStatus::Exited { .. } => "exited"@,
        CastorStatus::Missing => "missing"@,
    }
}

/// Each status has a label of its own: a container is shown `running`
/// exactly when it runs, `exited` exactly when it has exited and `missing`
/// exactly when it is gone, so two statuses share a label only when they
/// are the same kind.
pub proof fn law_status_labels_distinct(a: CastorStatus, b: CastorStatus)
    ensures
        label_of(a) == "running"@ <==> a is Running,
        label_of(a) == "exited"@ <==> a is Exited,
        label_of(a) == "missing"@ <==> a is Missing,
        label_of(a) == label_of(b) ==> ((a is Running) == (b is Running) && (a is Exited) == (
            b is Exited) && (a is Missing) == (b is Missing)),
{
    reveal_strlit("running");
    reveal_strlit("exited");
    reveal_strlit("missing");
    assert("running"@[0] == 'r');
    assert("exited"@[0] == 'e');
    assert("missing"@[0] == 'm');
    assert("running"@ != "exited"@);
    assert("running"@ != "missing"@);
    assert("exited"@ != "missing"@);
}

/// The label shown for a container status.
pub fn status_label(status: &CastorStatus) -> (r: &'static str)
    ensures
        r@ == label_of(*status),
{
    match status {
        CastorStatus::Running => "running",
        CastorStatus::Exited { .. } => "exited",
        CastorStatus::Missing => "missing",
    }
}

/// The status the backend listed last for `name`, if any.
pub open spec fn last_status(cs: Seq<(Seq<char>, CastorStatus)>, name: Seq<char>) -> Option<
    CastorStatus,
>
    decreases cs.len(),
{
    if cs.len() == 0 {
        None
    } else if cs.last().0 == name {
        Some(cs.last().1)
    } else {
        last_status(cs.drop_last(), name)
    }
}

/// The status text of a castor: the label of its listed status, `missing`
/// when the backend listed containers but not this one, or `unknown` when
/// the backend could not list containers.
pub open spec fn status_text(listed: Option<Seq<(Seq<char>, CastorStatus)>>, name: Seq<char>) -> Seq<
    char,
> {
    match listed {
        Some(cs) => match last_status(cs, name) {
            Some(s) => label_of(s),
            None => label_of(CastorStatus::Missing),
        },
        None => "unknown"@,
    }
}

/// One line of `castors list`.
#[derive(Debug, PartialEq, Eq)]
pub struct ListRow {
    pub name: String,
    pub image: String,
    pub dir: String,
    pub status: String,
    /// When the castor was created, in RFC 3339.
    pub created: Option<String>,
}

/// `created` is the RFC 3339 text of `at`, present at least whenever `at`
/// is representable.
pub open spec fn shows_instant(created: Option<String>, at: CreatedAt) -> bool {
    &&& created matches Some(s) ==> s@ == rfc3339_text(at.secs, at.nanos)
    &&& representable(at) ==> created is Some
}

/// `row` shows `e`, with its directory shown relative to `home` and its
/// status taken from `listed`.
pub open spec fn row_shows(
    row: ListRow,
    e: EntryView,
    listed: Option<Seq<(Seq<char>, CastorStatus)>>,
    home: Option<Seq<char>>,
) -> bool {
    &&& row.name@ == e.name
    &&& row.image@ == e.image
    &&& row.dir@ == display_path(e.mount_dir, home)
    &&& row.status@ == status_text(listed, e.name)
    &&& shows_instant(row.created, e.created_at)
}

/// Every row shows the entry at its position.
pub open spec fn rows_show(
    rows: Seq<ListRow>,
    entries: Seq<EntryView>,
    listed: Option<Seq<(Seq<char>, CastorStatus)>>,
    home: Option<Seq<char>>,
) -> bool {
    forall|i: int| 0 <= i < rows.len() ==> row_shows(#[trigger] rows[i], entries[i], listed, home)
}

/// The view of what the backend listed: the containers, or nothing when it
/// failed.
pub open spec fn listing_view(managed: Result<Vec<ManagedContainer>, EngineError>) -> Option<
    Seq<(Seq<char>, CastorStatus)>,
> {
    match managed {
        Ok(v) => Some(container_views(v@)),
        Err(_) => None,
    }
}

#[verifier::loop_isolation(false)]
fn status_of(managed: &Result<Vec<ManagedContainer>, EngineError>, name: &str) -> (r: String)
    ensures
        r@ == status_text(listing_view(*managed), name@),
{
    match managed {
        Err(_) => owned("unknown"),
        Ok(v) => {
            let ghost cs = container_views(v@);
            let mut i: usize = v.len();
            assert(cs.take(v@.len() as int) =~= cs);
            while i > 0
                invariant
                    i <= v@.len(),
                    cs == container_views(v@),
                    last_status(cs, name@) == last_status(cs.take(i as int), name@),
                decreases i,
            {
                let ghost pre = cs.take(i as int);
                assert(pre.drop_last() =~= cs.take(i - 1));
                assert(pre.last() == (v@[i - 1].name@, v@[i - 1].status));
                if str_eq(v[i - 1].name.as_str(), name) {
                    return owned(status_label(&v[i - 1].status));
                }
                i = i - 1;
            }
            owned(status_label(&CastorStatus::Missing))
        },
    }
}

/// The rows of `castors list` for the registered castors, in name order,
/// given what the backend listed and the home directory.
pub fn list_rows(
    registry: &Registry,
    managed: &Result<Vec<ManagedContainer>, EngineError>,
    home: &Option<String>,
) -> (r: Vec<ListRow>)
    ensures
        r@.len() == registry.entries().len(),
        forall|i: int|
            0 <= i < r@.len() ==> row_shows(
                #[trigger] r@[i],
                registry.entries()[i],
                listing_view(*managed),
                match home {
                    Some(h) => Some(h@),
                    None => None,
                },
            ),
{
    let entries = registry.list();
    let mut rows: Vec<ListRow> = Vec::new();
    let mut i: usize = 0;
    while i < entries.len()
        invariant
            i <= entries@.len(),
            entries@.map_values(|e: crate::base::registry::CastorEntry| e@) == registry.entries(),
            rows@.len() == i,
            forall|j: int|
                0 <= j < i ==> row_shows(
                    #[trigger] rows@[j],
                    registry.entries()[j],
                    listing_view(*managed),
                    match home {
                        Some(h) => Some(h@),
                        None => None,
                    },
                ),
        decreases entries.len() - i,
    {
        let e = &entries[i];
        assert(registry.entries()[i as int] == e@);
        let row = ListRow {
            name: e.name.to_string(),
            image: e.image.to_string(),
            dir: format_path_with(e.mount_dir.as_path(), home),
            status: status_of(managed, e.name.as_str()),
            created: rfc3339(e.created_at),
        };
        rows.push(row);
        i = i + 1;
    }
    rows
}

/// What `castors list` shows.
#[derive(Debug, PartialEq, Eq)]
pub enum ListOutput {
    /// Nothing is registered; the backend is not asked.
    NoCastors,
    /// One row per registered castor.
    Rows(Vec<ListRow>),
}

/// Lists the registered castors. The backend is asked for container
/// statuses only when something is registered; a castor it does not list
/// shows `missing`, and a backend failure only makes every status
/// `unknown`.
pub fn run<E: Engine>(engine: &E, registry: &Registry) -> (r: ListOutput)
    ensures
        match r {
            ListOutput::NoCastors => registry.entries().len() == 0,
            ListOutput::Rows(rows) => {
                &&& registry.entries().len() > 0
                &&& rows@.len() == registry.entries().len()
                &&& exists|
                    listed: Option<Seq<(Seq<char>, CastorStatus)>>,
                    home: Option<Seq<char>>,
                | #[trigger] rows_show(rows@, registry.entries(), listed, home)
            },
        },
{
    if registry.is_empty() {
        return ListOutput::NoCastors;
    }
    let managed = engine.list_managed();
    let home = home_dir();
    let rows = list_rows(registry, &managed, &home);
    let ghost lv = listing_view(managed);
    let ghost hv = match home {
        Some(h) => Some(h@),
        None => None::<Seq<char>>,
    };
    assert(rows_show(rows@, registry.entries(), lv, hv));
    assert(exists|
        listed: Option<Seq<(Seq<char>, CastorStatus)>>,
        home: Option<Seq<char>>,
    | #[trigger] rows_show(rows@, registry.entries(), listed, home));
    ListOutput::Rows(rows)
}

} // verus!
