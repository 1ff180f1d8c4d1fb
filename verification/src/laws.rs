//! What holds of every run of the engine.

use crate::catalog::{lemma_resolved_is_safe, resolution, CatalogView, VersionSpecView};
use crate::error::ErrorClass;
use crate::kind::Kind;
use crate::model::{
    after_evict, before_promotion, begin_build, begin_install, begin_uninstall, begin_update,
    fetch, filed, new_job, replies_left, run, step, unwind, EngineView, JobView, Stage, Step,
};
use crate::protocol::{ActionView, EventView, OutcomeView};
use crate::store::{lemma_promoted_wf, lemma_removed_wf, lemma_store_steps, InstalledEntryView};
use crate::text::is_safe_name;
use vstd::prelude::*;

verus! {

/// The version that a catalog stage resolves to is safe to name a directory with.
proof fn lemma_catalog_stage(e: EngineView, j: JobView, ev: EventView)
    ensures
        match ev {
            EventView::Catalog { fresh, kept } => resolution(
                j.kind,
                j.request,
                fresh,
                kept,
                e.workspace.platform,
            ),
            _ => resolution(j.kind, j.request, None, None, e.workspace.platform),
        } matches Ok(v) ==> is_safe_name(v.tag),
{
    match ev {
        EventView::Catalog { fresh, kept } => {
            lemma_resolved_is_safe(j.kind, j.request, fresh, kept, e.workspace.platform);
        },
        _ => {
            lemma_resolved_is_safe(j.kind, j.request, None, None, e.workspace.platform);
        },
    }
}

/// Every step keeps the engine well formed. With it the store stays well formed, so
/// that at every moment at most one version of a kind is active.
pub proof fn lemma_step_keeps_wf(e: EngineView, j: JobView, ev: EventView)
    requires
        e.wf(),
        e.job == Some(j),
    ensures
        step(e, j, ev).engine.wf(),
{
    lemma_store_steps(e.store, j.kind, j.tag);
    lemma_promoted_wf(e.store.slot(j.kind), j.tag);
    lemma_removed_wf(e.store.slot(j.kind), j.tag);
    assert(e.store.slot(j.kind).wf());
    match j.stage {
        Stage::Catalog => {
            lemma_catalog_stage(e, j, ev);
        },
        Stage::Deactivate => {
            lemma_unwind_keeps_wf(EngineView { store: e.store.deactivated(j.kind), ..e }, j);
        },
        Stage::Remove => {
            lemma_unwind_keeps_wf(EngineView { store: e.store.removed(j.kind, j.tag), ..e }, j);
        },
        _ => {},
    }
}

proof fn lemma_unwind_keeps_wf(e: EngineView, j: JobView)
    requires
        e.store.wf(),
    ensures
        unwind(e, j).engine.wf(),
{
    let slot = e.store.slot(j.kind);
    assert(slot.wf());
    match slot.active {
        Some(a) => {
            let i = choose|i: int| 0 <= i < slot.versions.len() && slot.versions[i] == a;
            assert(is_safe_name(slot.versions[i]));
        },
        None => {
            if slot.versions.len() > 0 {
                assert(is_safe_name(slot.versions[0]));
            }
        },
    }
}

/// Every operation begins in a well-formed engine.
pub proof fn lemma_begin_keeps_wf(
    e: EngineView,
    kind: Kind,
    request: VersionSpecView,
    force: bool,
    plan: Seq<Kind>,
)
    requires
        e.wf(),
        e.job is None,
    ensures
        begin_install(e, kind, request, force, true).engine.wf(),
        begin_install(e, kind, request, force, false).engine.wf(),
        begin_build(e, kind, request).engine.wf(),
        begin_uninstall(e, kind).engine.wf(),
        begin_update(e, plan, force).engine.wf(),
{
    lemma_unwind_keeps_wf(
        e,
        new_job(
            kind,
            VersionSpecView::Latest,
            false,
            false,
            false,
            Stage::Remove,
            Seq::empty(),
        ),
    );
}

/// A version that is installed is left alone by an install without `force`: the
/// operation is over at once, with the entry that is there, no outside work is asked
/// for, and what the engine holds is what it held.
pub proof fn lemma_installed_is_left_alone(e: EngineView, kind: Kind, tag: Seq<char>)
    requires
        e.store.has(kind, tag),
    ensures
        forall|activate: bool|
            #[trigger] begin_install(e, kind, VersionSpecView::Tag(tag), false, activate) == (Step {
                engine: e,
                action: ActionView::Done(
                    Ok(OutcomeView::AlreadyInstalled(e.store.entry(kind, tag))),
                ),
            }),
{
}

/// An install that has gone well leaves the version installed, and active if the
/// caller asked for that or if it is the only version of its kind. The entry it gives
/// is the one that the inventory lists.
pub proof fn lemma_install_result(e: EngineView, j: JobView, ev: EventView)
    requires
        e.wf(),
        e.job == Some(j),
    ensures
        step(e, j, ev).action matches ActionView::Done(Ok(OutcomeView::Installed(x))) ==> {
            let after = step(e, j, ev).engine;
            &&& after.job is None
            &&& x.kind == j.kind
            &&& after.store.has(x.kind, x.version)
            &&& x == after.store.entry(x.kind, x.version)
            &&& j.activate || after.store.slot(j.kind).versions.len() == 1 ==> x.is_active
        },
        step(e, j, ev).action matches ActionView::Done(Ok(OutcomeView::AlreadyInstalled(x))) ==> {
            let after = step(e, j, ev).engine;
            &&& after.job is None
            &&& after == e.idle()
            &&& x.kind == j.kind
            &&& after.store.has(x.kind, x.version)
            &&& x == after.store.entry(x.kind, x.version)
        },
{
    assert(e.store.slot(j.kind).wf());
    lemma_promoted_wf(e.store.slot(j.kind), j.tag);
    if j.stage == Stage::Promote && ev == EventView::Completed {
        let store = e.store.promoted(j.kind, j.tag);
        assert(store.slot(j.kind) == e.store.slot(j.kind).promoted(j.tag));
        assert(store.has(j.kind, j.tag));
    }
}

/// An install of the latest release, or of a tag by way of the catalog, leaves a
/// version that is installed alone, unless `force` is set: the operation is over
/// with the entry that is there, and what the engine holds is what it held.
pub proof fn lemma_resolved_installed_is_left_alone(
    e: EngineView,
    j: JobView,
    fresh: Option<CatalogView>,
    kept: Option<CatalogView>,
)
    requires
        e.job == Some(j),
        j.stage == Stage::Catalog,
        !j.force,
        !j.batch,
        resolution(j.kind, j.request, fresh, kept, e.workspace.platform) matches Ok(v)
            && e.store.has(j.kind, v.tag),
    ensures
        step(e, j, EventView::Catalog { fresh, kept }) == (Step {
            engine: e.idle(),
            action: ActionView::Done(
                Ok(
                    OutcomeView::AlreadyInstalled(
                        e.store.entry(
                            j.kind,
                            resolution(
                                j.kind,
                                j.request,
                                fresh,
                                kept,
                                e.workspace.platform,
                            )->Ok_0.tag,
                        ),
                    ),
                ),
            ),
        }),
{
}

/// An install called twice in a row: the second call does nothing and gives the
/// entry that the first gave.
pub proof fn lemma_install_twice(e: EngineView, j: JobView, ev: EventView, x: InstalledEntryView)
    requires
        e.wf(),
        e.job == Some(j),
        step(e, j, ev).action == ActionView::Done(Ok(OutcomeView::Installed(x))),
    ensures
        begin_install(step(e, j, ev).engine, j.kind, VersionSpecView::Tag(x.version), false, j.activate)
            == (Step {
            engine: step(e, j, ev).engine,
            action: ActionView::Done(Ok(OutcomeView::AlreadyInstalled(x))),
        }),
{
    lemma_install_result(e, j, ev);
}

/// With `force` an install never ends at once, and never uses the archive in the
/// cache: that archive is evicted, and only then is the download asked for.
pub proof fn lemma_force_fetches_anew(e: EngineView, j: JobView, kind: Kind, tag: Seq<char>)
    requires
        j.force,
    ensures
        begin_install(e, kind, VersionSpecView::Tag(tag), true, true).action is FetchCatalog,
        begin_install(e, kind, VersionSpecView::Latest, true, true).action is FetchCatalog,
        e.cache.contains_key(e.key(j)) ==> fetch(e, j).action is Evict,
        !e.cache.contains_key(e.key(j)) ==> fetch(e, j).action is Download,
        after_evict(e, j, EventView::Completed).action is Download,
        !after_evict(e, j, EventView::Completed).engine.cache.contains_key(e.key(j)),
{
}

/// A download enters the cache only with the checksum that the catalog gives, and
/// the archive that is unpacked is the one that has just entered the cache.
pub proof fn lemma_cache_holds_what_was_verified(e: EngineView, j: JobView, ev: EventView)
    requires
        e.wf(),
        e.job == Some(j),
    ensures
        j.stage == Stage::Download && step(e, j, ev).action is Commit ==> ev == EventView::Digest(
            j.checksum,
        ),
        j.stage == Stage::Commit && ev == EventView::Completed ==> {
            let after = step(e, j, ev);
            &&& after.engine.cache.contains_key(e.key(j))
            &&& after.engine.cache[e.key(j)] == filed(e, j)
            &&& !j.building ==> after.engine.cache[e.key(j)].checksum == j.checksum
            &&& after.action == (ActionView::Extract {
                archive: filed(e, j).local_path,
                staging: e.workspace.staging(),
            })
        },
{
}

/// A download whose checksum is not the one that the catalog gives is
/// `IntegrityError`, and the cache has no entry under its key afterwards.
pub proof fn lemma_corrupt_download_stays_out(e: EngineView, j: JobView, d: Seq<u8>)
    requires
        e.wf(),
        e.job == Some(j),
        j.stage == Stage::Download,
        d != j.checksum,
    ensures
        step(e, j, EventView::Digest(d)).action matches ActionView::Done(Err(err))
            && err.class == ErrorClass::IntegrityError,
        !step(e, j, EventView::Digest(d)).engine.cache.contains_key(e.key(j)),
        step(e, j, EventView::Digest(d)).engine.store == e.store,
{
}

/// A step that ends the operation with a failure leaves the installed versions, the
/// pointers and the cache as they were.
pub proof fn lemma_failure_changes_nothing(e: EngineView, j: JobView, ev: EventView)
    requires
        e.job == Some(j),
    ensures
        step(e, j, ev).action matches ActionView::Done(Err(_)) ==> step(e, j, ev).engine
            == e.idle(),
{
}

/// A reply that reports a failure changes neither the installed versions nor the
/// cache, whatever was awaited.
pub proof fn lemma_failed_reply_changes_nothing(e: EngineView, j: JobView, why: Seq<char>)
    requires
        e.job == Some(j),
    ensures
        step(e, j, EventView::Failed(why)).engine.store == e.store,
        step(e, j, EventView::Failed(why)).engine.cache == e.cache,
{
}

/// The installed versions and the pointers change only when a promotion, a removal
/// or a step of the link manager is reported as carried out.
pub proof fn lemma_store_changes_on_completion_only(e: EngineView, j: JobView, ev: EventView)
    requires
        e.job == Some(j),
        step(e, j, ev).engine.store != e.store,
    ensures
        ev == EventView::Completed,
        j.stage == Stage::Promote || j.stage == Stage::Activate || j.stage == Stage::Deactivate
            || j.stage == Stage::Remove,
{
}

/// The archives in the cache change only when an eviction or a move into the cache
/// is reported as carried out, and then only the archive of the operation.
pub proof fn lemma_cache_changes_on_completion_only(e: EngineView, j: JobView, ev: EventView)
    requires
        e.job == Some(j),
    ensures
        step(e, j, ev).engine.cache == e.cache || (ev == EventView::Completed && j.stage
            == Stage::Evict && step(e, j, ev).engine.cache == e.cache.remove(e.key(j))) || (ev
            == EventView::Completed && j.stage == Stage::Commit && step(e, j, ev).engine.cache
            == e.cache.insert(e.key(j), filed(e, j))),
{
}

proof fn lemma_activation_is_all_or_nothing(e: EngineView, j: JobView, evs: Seq<EventView>)
    requires
        e.job == Some(j),
        !j.batch,
        j.stage == Stage::Activate,
    ensures
        run(e, evs).store == e.store || run(e, evs).store == e.store.activated(j.kind, j.tag),
{
    if evs.len() > 0 {
        let next = step(e, j, evs[0]).engine;
        assert(next.job is None);
        assert(run(next, evs.drop_first()) == next);
    }
}

/// An install or a build is all or nothing. Whatever the replies, and wherever they
/// stop, the installed versions are what they were, or they are what they were
/// with one version promoted, or with that version promoted and the pointer on it.
/// The version is the one that the law gives.
pub proof fn lemma_install_is_all_or_nothing(e: EngineView, j: JobView, evs: Seq<EventView>) -> (tag:
    Seq<char>)
    requires
        e.wf(),
        e.job == Some(j),
        !j.batch,
        before_promotion(j),
    ensures
        run(e, evs).store == e.store || run(e, evs).store == e.store.promoted(j.kind, tag) || run(
            e,
            evs,
        ).store == e.store.promoted(j.kind, tag).activated(j.kind, tag),
    decreases evs.len(),
{
    if evs.len() == 0 {
        j.tag
    } else {
        let s = step(e, j, evs[0]);
        let rest = evs.drop_first();
        lemma_step_keeps_wf(e, j, evs[0]);
        match s.engine.job {
            None => {
                assert(run(s.engine, rest) == s.engine);
                j.tag
            },
            Some(k) => {
                assert(k.kind == j.kind && !k.batch);
                if k.stage == Stage::Activate {
                    assert(s.engine.store == e.store.promoted(j.kind, j.tag));
                    assert(k.tag == j.tag);
                    lemma_activation_is_all_or_nothing(s.engine, k, rest);
                    j.tag
                } else {
                    assert(s.engine.store == e.store);
                    lemma_install_is_all_or_nothing(s.engine, k, rest)
                }
            },
        }
    }
}

/// An uninstall only removes. Whatever the replies, and wherever they stop, the
/// other kinds are as they were, and every version of the kind that is installed
/// was installed before.
pub proof fn lemma_uninstall_only_removes(e: EngineView, j: JobView, evs: Seq<EventView>)
    requires
        e.wf(),
        e.job == Some(j),
        !j.batch,
        j.stage == Stage::Deactivate || j.stage == Stage::Remove,
    ensures
        forall|other: Kind|
            other != j.kind ==> #[trigger] run(e, evs).store.slot(other) == e.store.slot(other),
        forall|tag: Seq<char>| #[trigger]
            run(e, evs).store.has(j.kind, tag) ==> e.store.has(j.kind, tag),
    decreases evs.len(),
{
    if evs.len() > 0 {
        let s = step(e, j, evs[0]);
        let rest = evs.drop_first();
        lemma_step_keeps_wf(e, j, evs[0]);
        lemma_store_steps(e.store, j.kind, j.tag);
        assert(e.store.slot(j.kind).wf());
        lemma_removed_wf(e.store.slot(j.kind), j.tag);
        assert(forall|other: Kind| other != j.kind ==> #[trigger] s.engine.store.slot(other)
            == e.store.slot(other));
        assert forall|tag: Seq<char>| #[trigger]
            s.engine.store.has(j.kind, tag) implies e.store.has(j.kind, tag) by {
            if s.engine.store != e.store {
                if j.stage == Stage::Remove {
                    assert(s.engine.store.slot(j.kind) == e.store.slot(j.kind).removed(j.tag));
                } else {
                    assert(s.engine.store.slot(j.kind) == e.store.slot(j.kind).deactivated());
                }
            }
        }
        match s.engine.job {
            None => {
                assert(run(s.engine, rest) == s.engine);
            },
            Some(k) => {
                assert(k.kind == j.kind && !k.batch);
                lemma_uninstall_only_removes(s.engine, k, rest);
            },
        }
    }
}

/// An uninstall that has gone well leaves no version of the kind and no pointer.
pub proof fn lemma_uninstall_leaves_nothing(e: EngineView, j: JobView, ev: EventView)
    requires
        e.job == Some(j),
        step(e, j, ev).action == ActionView::Done(Ok(OutcomeView::Uninstalled)),
    ensures
        step(e, j, ev).engine.store.slot(j.kind).versions.len() == 0,
        step(e, j, ev).engine.store.slot(j.kind).active is None,
        step(e, j, ev).engine.store.listing(Some(j.kind)).len() == 0,
{
}

/// An uninstall of a kind of which nothing is installed is over at once.
pub proof fn lemma_uninstall_of_nothing(e: EngineView, kind: Kind)
    ensures
        begin_uninstall(e, kind).action == ActionView::Done(Ok(OutcomeView::Uninstalled)) <==> (
        e.store.slot(kind).versions.len() == 0 && e.store.slot(kind).active is None),
{
}

/// Every reply brings the operation nearer to its end: no run of replies keeps it
/// going for ever.
pub proof fn lemma_operation_ends(e: EngineView, j: JobView, ev: EventView)
    requires
        e.wf(),
        e.job == Some(j),
    ensures
        replies_left(step(e, j, ev).engine) < replies_left(e),
{
    let slot = e.store.slot(j.kind);
    assert(slot.wf());
    lemma_removed_wf(slot, j.tag);
    if j.stage == Stage::Remove && ev == EventView::Completed {
        assert(slot.removed(j.tag).versions.len() == slot.versions.len() - 1);
        assert(e.store.removed(j.kind, j.tag).slot(j.kind) == slot.removed(j.tag));
    }
    if j.stage == Stage::Deactivate && ev == EventView::Completed {
        assert(e.store.deactivated(j.kind).slot(j.kind) == slot.deactivated());
    }
}

/// A release that is made for another host than the active toolchain is not
/// installed: the install ends with `Incompatible`, and nothing changes.
pub proof fn lemma_other_host_is_refused(
    e: EngineView,
    j: JobView,
    fresh: Option<CatalogView>,
    kept: Option<CatalogView>,
)
    requires
        e.job == Some(j),
        j.stage == Stage::Catalog,
        resolution(j.kind, j.request, fresh, kept, e.workspace.platform) matches Ok(v) && (
        v.host matches Some(host) && !e.store.satisfies(host)) && (j.force || !e.store.has(
            j.kind,
            v.tag,
        )),
    ensures
        step(e, j, EventView::Catalog { fresh, kept }).action matches ActionView::Done(Err(err))
            && err.class == ErrorClass::Incompatible,
        step(e, j, EventView::Catalog { fresh, kept }).engine == e.idle(),
{
}

} // verus!
