//! In which order things are done, and what is left out.
use crate::course::{after_all, law_options_and_failure_stay, law_run_goes_on, reached};
use crate::instance::{InstallMethodView, InstanceView, MetadataView};
use crate::listing::{instance_in, DirEntryView, InstanceIteratorView, ItemView};
use crate::location::LocationView;
use crate::options::UpgradeView;
use crate::progress::{finds_instances, instances_found, law_each_reply_brings_the_end_nearer};
use crate::reach::found_so_far;
use crate::requests::{InstallPlanView, ReinitView};
use crate::run::{after_listing, job_tasks, server_end, OutcomeView, RunView};
use crate::script::{
    all_marked, dump_part, in_turn, instance_upgrade, minor_jobs, minor_upgrade, nightly_upgrade,
    plain, restore_part, restore_to, start_part, stop_part,
};
use crate::task::{JobView, MajorGroupView, ReplyView, ReportView, TaskView, WorkView};
use crate::version::{up_to_date, PackageInfoView, VersionQueryView, VersionView};
use vstd::prelude::*;

verus! {

/// Parts of the same length stand one after the other.
proof fn lemma_in_turn_at(
    instances: Seq<InstanceView>,
    part: spec_fn(InstanceView) -> Seq<TaskView>,
    length: int,
)
    requires
        length > 0,
        forall|instance: InstanceView| (#[trigger] part(instance)).len() == length,
    ensures
        in_turn(instances, part).len() == instances.len() * length,
        forall|i: int|
            0 <= i < instances.len() ==> in_turn(instances, part).subrange(
                i * length,
                i * length + length,
            ) == part(#[trigger] instances[i]),
    decreases instances.len(),
{
    let n = instances.len() as int;
    let tasks = in_turn(instances, part);
    if n == 0 {
        assert(0 * length == 0);
    } else {
        let earlier = instances.drop_last();
        let first = in_turn(earlier, part);
        lemma_in_turn_at(earlier, part, length);
        assert((n - 1) * length + length == n * length) by (nonlinear_arith);
        assert(tasks.len() == n * length);
        assert forall|i: int| 0 <= i < n implies tasks.subrange(
            i * length,
            i * length + length,
        ) == part(#[trigger] instances[i]) by {
            if i < n - 1 {
                assert(earlier[i] == instances[i]);
                assert(0 <= i * length && i * length + length <= (n - 1) * length)
                    by (nonlinear_arith)
                    requires
                        0 <= i < n - 1,
                        length > 0,
                ;
                assert(tasks.subrange(i * length, i * length + length) =~= first.subrange(
                    i * length,
                    i * length + length,
                ));
            } else {
                assert(tasks.subrange(i * length, i * length + length) =~= part(instances[i]));
            }
        }
    }
}

/// An upgrade within a major version stops every instance of it before the
/// package is installed, and starts every one after that. Each instance is
/// taken control of each time.
pub proof fn law_minor_upgrade_stops_then_installs_then_starts(
    method: InstallMethodView,
    group: MajorGroupView,
    rest: Seq<MajorGroupView>,
    package: PackageInfoView,
    old_version: Option<VersionView>,
)
    ensures
        ({
            let tasks = minor_upgrade(method, group, rest, package, old_version);
            let n = group.instances.len() as int;
            &&& tasks.len() == 4 * n + 2 + minor_jobs(method, rest).len()
            &&& tasks[0].work is Tell
            &&& tasks[2 * n + 1].scope is Upgrade
            &&& tasks[2 * n + 1].work == WorkView::Install(
                InstallPlanView {
                    method,
                    package_name: package.package_name,
                    major_version: group.version,
                    version: package.version,
                    nightly: false,
                },
            )
            &&& forall|i: int|
                0 <= i < n ==> {
                    let instance = #[trigger] group.instances[i];
                    let marked = instance.marked(old_version, package.full_version);
                    &&& tasks.subrange(2 * i + 1, 2 * i + 3) == stop_part(marked)
                    &&& tasks.subrange(2 * n + 2 * i + 2, 2 * n + 2 * i + 4) == start_part(marked)
                }
            &&& tasks.skip(4 * n + 2) == minor_jobs(method, rest)
        }),
{
    let tasks = minor_upgrade(method, group, rest, package, old_version);
    let n = group.instances.len() as int;
    let marked = all_marked(group.instances, old_version, package.full_version);
    let stop = |instance: InstanceView| stop_part(instance);
    let start = |instance: InstanceView| start_part(instance);
    lemma_in_turn_at(marked, stop, 2);
    lemma_in_turn_at(marked, start, 2);
    let stops = in_turn(marked, stop);
    let starts = in_turn(marked, start);
    assert(tasks.subrange(1, 2 * n + 1) =~= stops);
    assert(tasks.subrange(2 * n + 2, 4 * n + 2) =~= starts);
    assert forall|i: int| 0 <= i < n implies {
        let instance = #[trigger] group.instances[i];
        let marked = instance.marked(old_version, package.full_version);
        &&& tasks.subrange(2 * i + 1, 2 * i + 3) == stop_part(marked)
        &&& tasks.subrange(2 * n + 2 * i + 2, 2 * n + 2 * i + 4) == start_part(marked)
    } by {
        assert(marked[i] == group.instances[i].marked(old_version, package.full_version));
        assert(stops.subrange(i * 2, i * 2 + 2) =~= tasks.subrange(2 * i + 1, 2 * i + 3));
        assert(starts.subrange(i * 2, i * 2 + 2) =~= tasks.subrange(
            2 * n + 2 * i + 2,
            2 * n + 2 * i + 4,
        ));
    }
    assert(tasks.skip(4 * n + 2) =~= minor_jobs(method, rest));
}

/// An upgrade of the nightlies dumps every instance before the package is
/// installed, and restores every one after that.
pub proof fn law_nightly_upgrade_dumps_then_installs_then_restores(
    method: InstallMethodView,
    instances: Seq<InstanceView>,
    package: PackageInfoView,
    old_version: Option<VersionView>,
)
    ensures
        ({
            let tasks = nightly_upgrade(method, instances, package, old_version);
            let n = instances.len() as int;
            &&& tasks.len() == 13 * n + 1
            &&& tasks[4 * n].scope is Upgrade
            &&& tasks[4 * n].work == WorkView::Install(
                InstallPlanView {
                    method,
                    package_name: package.package_name,
                    major_version: package.major_version,
                    version: package.version,
                    nightly: true,
                },
            )
            &&& forall|i: int|
                0 <= i < n ==> {
                    let instance = #[trigger] instances[i];
                    let marked = instance.marked(old_version, package.full_version);
                    &&& tasks.subrange(4 * i, 4 * i + 4) == dump_part(marked)
                    &&& tasks.subrange(4 * n + 9 * i + 1, 4 * n + 9 * i + 10) == restore_part(
                        ReinitView {
                            instance: marked,
                            version: package.major_version,
                            nightly: true,
                            method,
                        },
                    )
                }
        }),
{
    let tasks = nightly_upgrade(method, instances, package, old_version);
    let n = instances.len() as int;
    let marked = all_marked(instances, old_version, package.full_version);
    let dump = |instance: InstanceView| dump_part(instance);
    let restore = restore_to(package.major_version, true, method);
    lemma_in_turn_at(marked, dump, 4);
    lemma_in_turn_at(marked, restore, 9);
    let dumps = in_turn(marked, dump);
    let restores = in_turn(marked, restore);
    assert(tasks.subrange(0, 4 * n) =~= dumps);
    assert(tasks.subrange(4 * n + 1, 13 * n + 1) =~= restores);
    assert forall|i: int| 0 <= i < n implies {
        let instance = #[trigger] instances[i];
        let marked = instance.marked(old_version, package.full_version);
        &&& tasks.subrange(4 * i, 4 * i + 4) == dump_part(marked)
        &&& tasks.subrange(4 * n + 9 * i + 1, 4 * n + 9 * i + 10) == restore_part(
            ReinitView {
                instance: marked,
                version: package.major_version,
                nightly: true,
                method,
            },
        )
    } by {
        assert(marked[i] == instances[i].marked(old_version, package.full_version));
        assert(dumps.subrange(i * 4, i * 4 + 4) =~= tasks.subrange(4 * i, 4 * i + 4));
        assert(restores.subrange(i * 9, i * 9 + 9) =~= tasks.subrange(
            4 * n + 9 * i + 1,
            4 * n + 9 * i + 10,
        ));
    }
}

/// The upgrade of one instance dumps it before the package is installed, and
/// restores it after that.
pub proof fn law_instance_upgrade_dumps_then_installs_then_restores(
    method: InstallMethodView,
    instance: InstanceView,
    query: VersionQueryView,
    package: PackageInfoView,
    old_version: Option<VersionView>,
)
    ensures
        ({
            let tasks = instance_upgrade(method, instance, query, package, old_version);
            let marked = instance.marked(old_version, package.full_version);
            &&& tasks.len() == 14
            &&& tasks.take(4) == dump_part(marked)
            &&& tasks[4].scope is Upgrade
            &&& tasks[4].work == WorkView::Install(
                InstallPlanView {
                    method,
                    package_name: package.package_name,
                    major_version: package.major_version,
                    version: package.version,
                    nightly: query is Nightly,
                },
            )
            &&& tasks.skip(5) == restore_part(
                ReinitView {
                    instance: marked,
                    version: package.version,
                    nightly: query is Nightly,
                    method,
                },
            )
        }),
{
    let tasks = instance_upgrade(method, instance, query, package, old_version);
    let marked = instance.marked(old_version, package.full_version);
    assert(tasks.take(4) =~= dump_part(marked));
    assert(tasks.skip(5) =~= restore_part(
        ReinitView { instance: marked, version: package.version, nightly: query is Nightly, method },
    ));
}

/// Where the installed version is no older than the one on offer and the
/// upgrade is not forced, the user is told so and nothing else is done.
/// Otherwise the package on offer is installed.
pub proof fn law_package_is_installed_unless_up_to_date(
    method: InstallMethodView,
    job: JobView,
    package: PackageInfoView,
    old_version: Option<VersionView>,
    force: bool,
)
    ensures
        ({
            let tasks = job_tasks(method, job, package, old_version, force);
            if up_to_date(old_version, package.full_version, force) {
                tasks.len() == 1 && tasks[0].work is Tell
            } else {
                exists|i: int|
                    0 <= i < tasks.len() && ((#[trigger] tasks[i]).work matches WorkView::Install(
                        plan,
                    ) && plan.method == method && plan.package_name == package.package_name
                        && plan.version == package.version && plan.nightly == (job.query()
                        is Nightly))
            }
        }),
{
    let tasks = job_tasks(method, job, package, old_version, force);
    if !up_to_date(old_version, package.full_version, force) {
        match job {
            JobView::Minor(group, rest) => {
                law_minor_upgrade_stops_then_installs_then_starts(
                    method,
                    group,
                    rest,
                    package,
                    old_version,
                );
                let i = 2 * group.instances.len() as int + 1;
                assert(tasks[i].work is Install);
            },
            JobView::Nightly(instances) => {
                law_nightly_upgrade_dumps_then_installs_then_restores(
                    method,
                    instances,
                    package,
                    old_version,
                );
                let i = 4 * instances.len() as int;
                assert(tasks[i].work is Install);
            },
            JobView::Single(instance, query) => {
                assert(tasks[4].work is Install);
            },
        }
    }
}

/// A forced upgrade is never held to be up to date, nor is one of what is not
/// installed.
pub proof fn law_force_and_absence_are_never_up_to_date(
    old_version: Option<VersionView>,
    new_version: VersionView,
    force: bool,
)
    ensures
        force ==> !up_to_date(old_version, new_version, force),
        old_version is None ==> !up_to_date(old_version, new_version, force),
{
}

/// An entry of the directory of instances, with the metadata found in it.
pub struct Listed {
    pub entry: DirEntryView,
    /// Nothing where the metadata cannot be read.
    pub meta: Option<MetadataView>,
}

/// The replies that an entry is answered with: the entry, then for one that may
/// be an instance its metadata, or that it cannot be read and that the user was
/// told.
pub open spec fn entry_replies(listed: Listed) -> Seq<ReplyView> {
    if listed.entry.item() is Candidate {
        match listed.meta {
            Some(meta) => seq![ReplyView::Entry(listed.entry), ReplyView::Metadata(meta)],
            None => seq![ReplyView::Entry(listed.entry), ReplyView::Failed, ReplyView::Done],
        }
    } else {
        seq![ReplyView::Entry(listed.entry)]
    }
}

/// The replies that a listing consists of.
pub open spec fn listing_replies(entries: Seq<Listed>) -> Seq<ReplyView>
    decreases entries.len(),
{
    if entries.len() == 0 {
        seq![]
    } else {
        listing_replies(entries.drop_last()) + entry_replies(entries.last())
    }
}

/// The instances that a listing of the directory finds: the entries that may be
/// instances and whose metadata can be read, in the order of the listing.
pub open spec fn instances_listed(path: LocationView, entries: Seq<Listed>) -> Seq<InstanceView>
    decreases entries.len(),
{
    if entries.len() == 0 {
        seq![]
    } else {
        let earlier = instances_listed(path, entries.drop_last());
        match (entries.last().entry.item(), entries.last().meta) {
            (ItemView::Candidate(name), Some(meta)) => earlier.push(instance_in(path, name, meta)),
            _ => earlier,
        }
    }
}

proof fn lemma_after_few(run: RunView, a: ReplyView, b: ReplyView, c: ReplyView)
    ensures
        after_all(run, seq![a]) == run.after(a),
        after_all(run, seq![a, b]) == run.after(a).after(b),
        after_all(run, seq![a, b, c]) == run.after(a).after(b).after(c),
{
    assert(after_all(run, seq![]) == run);
    assert(seq![a].drop_last() =~= seq![]);
    assert(seq![a, b].drop_last() =~= seq![a]);
    assert(seq![a, b, c].drop_last() =~= seq![a, b]);
}

proof fn lemma_listed(run: RunView, listing: InstanceIteratorView, listed: Listed)
    requires
        run.tasks == seq![plain(WorkView::NextEntry(listing))],
        !(listed.entry.item() is Untyped),
    ensures
        after_all(run, entry_replies(listed)) == (RunView {
            tasks: seq![
                plain(
                    WorkView::NextEntry(
                        match (listed.entry.item(), listed.meta) {
                            (ItemView::Candidate(name), Some(meta)) => listing.with(name, meta),
                            _ => listing,
                        },
                    ),
                ),
            ],
            ..run
        }),
{
    let entry = ReplyView::Entry(listed.entry);
    let one = run.after(entry);
    match listed.entry.item() {
        ItemView::Candidate(name) => {
            assert(one.tasks =~= seq![plain(WorkView::ReadMetadata(listing, name))]);
            match listed.meta {
                Some(meta) => {
                    lemma_after_few(run, entry, ReplyView::Metadata(meta), ReplyView::Done);
                    let two = one.after(ReplyView::Metadata(meta));
                    assert(two.tasks =~= seq![plain(WorkView::NextEntry(listing.with(name, meta)))]);
                },
                None => {
                    lemma_after_few(run, entry, ReplyView::Failed, ReplyView::Done);
                    let two = one.after(ReplyView::Failed);
                    assert(two.tasks =~= seq![
                        plain(WorkView::Tell(ReportView::MetadataUnreadable { name })),
                        plain(WorkView::NextEntry(listing)),
                    ]);
                    let three = two.after(ReplyView::Done);
                    assert(three.tasks =~= seq![plain(WorkView::NextEntry(listing))]);
                },
            }
        },
        _ => {
            lemma_after_few(run, entry, ReplyView::Done, ReplyView::Done);
            assert(one.tasks =~= seq![plain(WorkView::NextEntry(listing))]);
        },
    }
}

proof fn lemma_listing(run: RunView, path: LocationView, entries: Seq<Listed>)
    requires
        run.tasks == seq![plain(WorkView::NextEntry(InstanceIteratorView::at(path)))],
        forall|i: int| 0 <= i < entries.len() ==> !((#[trigger] entries[i]).entry.item() is Untyped),
    ensures
        after_all(run, listing_replies(entries)) == (RunView {
            tasks: seq![
                plain(
                    WorkView::NextEntry(
                        InstanceIteratorView { path, found: instances_listed(path, entries) },
                    ),
                ),
            ],
            ..run
        }),
    decreases entries.len(),
{
    if entries.len() > 0 {
        let earlier = entries.drop_last();
        assert forall|i: int| 0 <= i < earlier.len() implies !((#[trigger] earlier[i]).entry.item()
            is Untyped) by {
            assert(earlier[i] == entries[i]);
        }
        lemma_listing(run, path, earlier);
        law_run_goes_on(run, listing_replies(earlier), entry_replies(entries.last()));
        assert(!(entries[entries.len() - 1].entry.item() is Untyped));
        lemma_listed(
            after_all(run, listing_replies(earlier)),
            InstanceIteratorView { path, found: instances_listed(path, earlier) },
            entries.last(),
        );
    }
}

/// Listing the directory finds exactly the directories in it whose names an
/// instance may have and whose metadata can be read, in the order they are
/// listed. An instance whose metadata cannot be read is left out, and the run
/// goes on.
pub proof fn law_listing_finds_the_instances(
    run: RunView,
    path: LocationView,
    entries: Seq<Listed>,
)
    requires
        run.tasks == seq![plain(WorkView::NextEntry(InstanceIteratorView::at(path)))],
        forall|i: int| 0 <= i < entries.len() ==> !((#[trigger] entries[i]).entry.item() is Untyped),
    ensures
        after_all(run, listing_replies(entries).push(ReplyView::End)) == (RunView {
            tasks: after_listing(run.options, instances_listed(path, entries)),
            ..run
        }),
{
    lemma_listing(run, path, entries);
    let replies = listing_replies(entries).push(ReplyView::End);
    assert(replies.drop_last() =~= listing_replies(entries));
    assert(after_all(run, replies).tasks =~= after_listing(
        run.options,
        instances_listed(path, entries),
    ));
}

/// The instances that a listing under way has found.
spec fn listed_by(work: WorkView) -> Seq<InstanceView> {
    match work {
        WorkView::NextEntry(listing) => listing.found,
        WorkView::ReadMetadata(listing, _) => listing.found,
        _ => seq![],
    }
}

/// The instances are being found: after what the user is told there is one task
/// left, and it holds what was found.
spec fn finding(tasks: Seq<TaskView>, found: Seq<InstanceView>) -> bool {
    &&& tasks.len() > 0
    &&& finds_instances(tasks.last().work)
    &&& listed_by(tasks.last().work) == found
    &&& forall|i: int| 0 <= i < tasks.len() - 1 ==> (#[trigger] tasks[i]).work is Tell
}

proof fn lemma_server_end_while_finding(tasks: Seq<TaskView>)
    requires
        forall|i: int|
            0 <= i < tasks.len() ==> (#[trigger] tasks[i]).work is Tell || finds_instances(
                tasks[i].work,
            ),
    ensures
        server_end(tasks).len() == 0,
    decreases tasks.len(),
{
    if tasks.len() > 0 {
        let rest = tasks.drop_first();
        assert forall|i: int| 0 <= i < rest.len() implies (#[trigger] rest[i]).work is Tell
            || finds_instances(rest[i].work) by {
            assert(rest[i] == tasks[i + 1]);
        }
        assert(tasks[0].work is Tell || finds_instances(tasks[0].work));
        lemma_server_end_while_finding(rest);
    }
}

proof fn lemma_finding(options: UpgradeView, replies: Seq<ReplyView>)
    ensures
        instances_found(reached(options, replies).tasks) || finding(
            reached(options, replies).tasks,
            found_so_far(options, replies),
        ),
    decreases replies.len(),
{
    if replies.len() > 0 {
        let earlier = replies.drop_last();
        let reply = replies.last();
        let run = reached(options, earlier);
        let tasks = run.tasks;
        let after = run.after(reply).tasks;
        let found = found_so_far(options, earlier);
        lemma_finding(options, earlier);
        law_options_and_failure_stay(RunView::start(options), earlier);
        if instances_found(tasks) {
            if run.accepts(reply) {
                law_each_reply_brings_the_end_nearer(run, reply);
            }
            if tasks.len() > 0 {
                assert(!finds_instances(tasks[0].work));
            }
        } else {
            match tasks[0].outcome(options, reply) {
                OutcomeView::Next(next) => {
                    let rest = tasks.drop_first();
                    if tasks.len() > 1 {
                        assert(tasks[0].work is Tell);
                        assert(after =~= rest);
                        assert forall|i: int| 0 <= i < rest.len() - 1 implies (
                        #[trigger] rest[i]).work is Tell by {
                            assert(rest[i] == tasks[i + 1]);
                        }
                        assert(finding(after, found));
                    } else {
                        assert(tasks[0] == tasks.last());
                        assert(after =~= next);
                    }
                },
                OutcomeView::Failure(_) => {
                    lemma_server_end_while_finding(tasks);
                },
                OutcomeView::Unfit => {},
            }
        }
    }
}

/// What a listing under way holds is what was found so far; and once the
/// listing ends, the run goes on with exactly the instances found.
pub proof fn law_run_goes_on_with_what_was_found(
    options: UpgradeView,
    replies: Seq<ReplyView>,
    listing: InstanceIteratorView,
)
    requires
        reached(options, replies).tasks.len() > 0,
        reached(options, replies).tasks[0].work == WorkView::NextEntry(listing),
    ensures
        listing.found == found_so_far(options, replies),
        reached(options, replies.push(ReplyView::End)).tasks == after_listing(
            options,
            found_so_far(options, replies),
        ),
        reached(options, replies.push(ReplyView::End)).failure == reached(
            options,
            replies,
        ).failure,
{
    let run = reached(options, replies);
    lemma_finding(options, replies);
    law_options_and_failure_stay(RunView::start(options), replies);
    assert(finds_instances(run.tasks[0].work));
    assert(finding(run.tasks, found_so_far(options, replies)));
    assert(run.tasks.len() == 1);
    assert(replies.push(ReplyView::End).drop_last() =~= replies);
    assert(run.after(ReplyView::End).tasks =~= after_listing(options, listing.found));
}

} // verus!
