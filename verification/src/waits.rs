//! What holds whenever a run waits for an operation.
use crate::course::{law_options_and_failure_stay, lemma_server_end, reached};
use crate::instance::{ControlRequestView, InstallMethodView, InstanceView};
use crate::location::LocationView;
use crate::options::UpgradeView;
use crate::reach::{
    all_tasks, concerns, found_so_far, law_only_found_and_wanted_instances_are_touched,
    lemma_head_within, lemma_in_turn_all,
};
use crate::requests::{ConnParamsView, DumpRequestView, InitOptionsView, RestoreRequestView};
use crate::run::{job_tasks, OutcomeView, RunView};
use crate::script::{all_marked, dump_part, minor_jobs, restore_to, start_part, stop_part};
use crate::selection::wanted;
use crate::task::{ActionView, JobView, OpView, ReplyView, TaskView, WorkView};
use crate::version::{installed_version, PackageInfoView, VersionView};
use vstd::prelude::*;

verus! {

/// The instance was found, and the options ask for it: by its name where one is
/// given, and otherwise by whether it is a nightly.
pub open spec fn asked_for(
    options: UpgradeView,
    replies: Seq<ReplyView>,
    instance: InstanceView,
) -> bool {
    &&& found_so_far(options, replies).contains(instance)
    &&& match options.name {
        Some(name) => instance.name == name,
        None => instance.meta.nightly == options.nightly,
    }
}

/// Whenever an instance is initialized, it is one that was found and asked for,
/// on the port it had and with the start configuration it had, over what stands
/// there, without a user and without being started, to a nightly or not.
pub proof fn law_init_is_of_an_instance_as_it_was(
    options: UpgradeView,
    replies: Seq<ReplyView>,
    init: InitOptionsView,
)
    requires
        reached(options, replies).pending() == Some(ActionView::Do(OpView::Init(init))),
    ensures
        exists|instance: InstanceView| #[trigger]
            asked_for(options, replies, instance) && {
                &&& init.name == instance.name
                &&& init.system == instance.system
                &&& init.port == Some(instance.meta.port)
                &&& init.start_conf == instance.meta.start_conf
            },
        init.version is Some,
        init.method is Some,
        init.upgrade_marker is Some,
        !init.interactive,
        init.overwrite,
        init.inhibit_start,
        init.inhibit_user_creation,
        init.default_user == "edgedb"@,
        init.default_database == "edgedb"@,
{
    let instance = lemma_asked_for(options, replies, OpView::Init(init));
}

proof fn lemma_asked_for(options: UpgradeView, replies: Seq<ReplyView>, op: OpView) -> (instance:
    InstanceView)
    requires
        reached(options, replies).pending() == Some(ActionView::Do(op)),
    ensures
        asked_for(options, replies, instance),
        concerns(instance, op),
{
    law_only_found_and_wanted_instances_are_touched(options, replies, op);
    let instance = choose|instance: InstanceView| #[trigger]
        found_so_far(options, replies).contains(instance) && wanted(
            options.todo(),
            instance,
        ) && concerns(instance, op);
    instance
}

/// Whenever an instance is taken control of, it is one that was found and asked
/// for, with the metadata it was found with.
pub proof fn law_control_is_of_an_instance_asked_for(
    options: UpgradeView,
    replies: Seq<ReplyView>,
    request: ControlRequestView,
)
    requires
        reached(options, replies).pending() == Some(ActionView::Do(OpView::GetControl(request))),
    ensures
        exists|instance: InstanceView| #[trigger]
            asked_for(options, replies, instance) && {
                &&& request.name == instance.name
                &&& request.system == instance.system
                &&& request.meta == instance.meta
            },
{
    let instance = lemma_asked_for(options, replies, OpView::GetControl(request));
}

/// Whenever an instance is started or stopped, it is one that was found and asked
/// for.
pub proof fn law_starts_and_stops_are_of_instances_asked_for(
    options: UpgradeView,
    replies: Seq<ReplyView>,
    op: OpView,
    name: Seq<char>,
    foreground: bool,
)
    requires
        op == (OpView::Start { name, foreground }) || op == (OpView::Stop { name }),
        reached(options, replies).pending() == Some(ActionView::Do(op)),
    ensures
        exists|instance: InstanceView| #[trigger]
            asked_for(options, replies, instance) && instance.name == name,
{
    let instance = lemma_asked_for(options, replies, op);
}

/// Whenever data is moved, it is that of an instance that was found and asked
/// for, and it is moved to the backup beside it.
pub proof fn law_moves_are_to_the_backup_beside(
    options: UpgradeView,
    replies: Seq<ReplyView>,
    from: LocationView,
    to: LocationView,
)
    requires
        reached(options, replies).pending() == Some(ActionView::Do(OpView::Rename { from, to })),
    ensures
        exists|instance: InstanceView| #[trigger]
            asked_for(options, replies, instance) && {
                let parent = instance.data_dir.parent;
                &&& from.base == parent.base
                &&& to.base == parent.base
                &&& from.names == parent.names.push(instance.data_dir.file_name)
                &&& to.names == parent.names.push(instance.name + ".backup"@)
            },
{
    let instance = lemma_asked_for(options, replies, OpView::Rename { from, to });
}

/// The last reply that the run took says that a connection was made, with these
/// parameters.
pub open spec fn just_connected(
    options: UpgradeView,
    replies: Seq<ReplyView>,
    params: ConnParamsView,
) -> bool
    decreases replies.len(),
{
    replies.len() > 0 && {
        let earlier = replies.drop_last();
        let run = reached(options, earlier);
        if run.accepts(replies.last()) {
            &&& run.pending() == Some(ActionView::Do(OpView::Connect(params)))
            &&& replies.last() is Done
        } else {
            just_connected(options, earlier, params)
        }
    }
}

/// The connection that the operation needs.
spec fn needed(work: WorkView) -> Option<ConnParamsView> {
    match work {
        WorkView::Do(OpView::Dump(request)) => Some(request.conn_params),
        WorkView::Do(OpView::Restore(request)) => Some(request.conn_params),
        _ => None,
    }
}

/// Each task that needs a connection, but for the first, comes right after the
/// task that makes it.
spec fn connected(tasks: Seq<TaskView>) -> bool {
    forall|i: int|
        0 < i < tasks.len() && needed((#[trigger] tasks[i]).work) is Some ==> tasks[i - 1].work
            == WorkView::Do(OpView::Connect(needed(tasks[i].work)->0))
}

/// The tasks need no connection.
spec fn needs_nothing(tasks: Seq<TaskView>) -> bool {
    all_tasks(tasks, |task: TaskView| needed(task.work) is None)
}

proof fn lemma_job_needs_nothing(
    method: InstallMethodView,
    job: JobView,
    package: PackageInfoView,
    old_version: Option<VersionView>,
    force: bool,
)
    ensures
        needs_nothing(job_tasks(method, job, package, old_version, force)),
{
    let good = |task: TaskView| needed(task.work) is None;
    match job {
        JobView::Minor(group, rest) => {
            let marked = all_marked(group.instances, old_version, package.full_version);
            lemma_in_turn_all(marked, |instance: InstanceView| stop_part(instance), good);
            lemma_in_turn_all(marked, |instance: InstanceView| start_part(instance), good);
            assert(all_tasks(minor_jobs(method, rest), good));
        },
        JobView::Nightly(instances) => {
            let marked = all_marked(instances, old_version, package.full_version);
            lemma_in_turn_all(marked, |instance: InstanceView| dump_part(instance), good);
            lemma_in_turn_all(marked, restore_to(package.major_version, true, method), good);
        },
        JobView::Single(_, _) => {},
    }
}

proof fn lemma_connected_step(
    options: UpgradeView,
    tasks: Seq<TaskView>,
    reply: ReplyView,
)
    requires
        tasks.len() > 0,
        connected(tasks),
    ensures
        tasks[0].outcome(options, reply) matches OutcomeView::Next(next) ==> {
            let after = next + tasks.drop_first();
            &&& connected(after)
            &&& after.len() > 0 && needed(after[0].work) is Some ==> {
                &&& tasks[0].work == WorkView::Do(OpView::Connect(needed(after[0].work)->0))
                &&& reply is Done
            }
        },
{
    let task = tasks[0];
    let rest = tasks.drop_first();
    if let OutcomeView::Next(next) = task.outcome(options, reply) {
        let after = next + rest;
        if let WorkView::GetInstalled(method, job, package) = task.work {
            let old_version = installed_version(reply->Packages_0);
            lemma_job_needs_nothing(method, job, package, old_version, options.force);
        }
        assert(connected(next));
        assert(next.len() > 0 ==> needed(next[0].work) is None);
        assert forall|i: int| 0 < i < after.len() && needed(
            (#[trigger] after[i]).work,
        ) is Some implies after[i - 1].work == WorkView::Do(
            OpView::Connect(needed(after[i].work)->0),
        ) by {
            if i < next.len() {
                assert(after[i] == next[i]);
            } else {
                let j = i - next.len() + 1;
                assert(after[i] == tasks[j]);
                assert(tasks[j - 1].work == WorkView::Do(OpView::Connect(needed(tasks[j].work)->0)));
                if i > next.len() {
                    assert(after[i - 1] == tasks[j - 1]);
                }
            }
        }
        if next.len() == 0 && rest.len() > 0 {
            assert(after[0] == tasks[1]);
        } else if next.len() > 0 {
            assert(after[0] == next[0]);
        }
    }
}

proof fn lemma_connected(options: UpgradeView, replies: Seq<ReplyView>)
    ensures
        connected(reached(options, replies).tasks),
        reached(options, replies).tasks.len() > 0 && needed(
            reached(options, replies).tasks[0].work,
        ) is Some ==> just_connected(
            options,
            replies,
            needed(reached(options, replies).tasks[0].work)->0,
        ),
    decreases replies.len(),
{
    if replies.len() > 0 {
        let earlier = replies.drop_last();
        let run = reached(options, earlier);
        lemma_connected(options, earlier);
        law_options_and_failure_stay(RunView::start(options), earlier);
        if run.tasks.len() > 0 {
            lemma_connected_step(options, run.tasks, replies.last());
            lemma_server_end(run.tasks);
        }
    }
}

/// Whenever an instance is dumped, it is one that was found and asked for, to a
/// directory called by its name, through the connection that was just made.
pub proof fn law_dump_is_through_the_connection_just_made(
    options: UpgradeView,
    replies: Seq<ReplyView>,
    request: DumpRequestView,
)
    requires
        reached(options, replies).pending() == Some(ActionView::Do(OpView::Dump(request))),
    ensures
        just_connected(options, replies, request.conn_params),
        request.command_line,
        !request.styled,
        request.conn_params.user == "edgedb"@,
        request.conn_params.database == "edgedb"@,
        request.conn_params.wait_until_available == 30,
        exists|instance: InstanceView| #[trigger]
            asked_for(options, replies, instance) && request.path.names == seq![
                instance.name + ".dump"@,
            ],
{
    lemma_connected(options, replies);
    let instance = lemma_asked_for(options, replies, OpView::Dump(request));
}

/// Whenever an instance is restored, it is one that was found and asked for, with
/// all its databases, into an empty server and without detail, from the dump
/// beside its data, through the connection that was just made.
pub proof fn law_restore_is_of_all_through_the_connection_just_made(
    options: UpgradeView,
    replies: Seq<ReplyView>,
    request: RestoreRequestView,
)
    requires
        reached(options, replies).pending() == Some(ActionView::Do(OpView::Restore(request))),
    ensures
        just_connected(options, replies, request.conn_params),
        request.all,
        !request.allow_non_empty,
        !request.verbose,
        request.command_line,
        !request.styled,
        request.conn_params.user == "edgedb"@,
        request.conn_params.database == "edgedb"@,
        request.conn_params.wait_until_available == 30,
        exists|instance: InstanceView| #[trigger]
            asked_for(options, replies, instance) && {
                &&& request.path.base == instance.data_dir.parent.base
                &&& request.path.names == instance.data_dir.parent.names.push(
                    instance.name + ".dump"@,
                )
            },
{
    lemma_connected(options, replies);
    let instance = lemma_asked_for(options, replies, OpView::Restore(request));
}

/// Whenever a connection is made or a server is run, it is done as always.
pub proof fn law_connections_and_servers_are_as_always(
    options: UpgradeView,
    replies: Seq<ReplyView>,
    op: OpView,
)
    requires
        reached(options, replies).pending() == Some(ActionView::Do(op)),
    ensures
        op matches OpView::Connect(params) ==> {
            &&& params.user == "edgedb"@
            &&& params.database == "edgedb"@
            &&& params.wait_until_available == 30
        },
        op matches OpView::RunServer { args } ==> args == seq![
            "--default-database=edgedb"@,
            "--default-database-user=edgedb"@,
        ],
        op matches OpView::Start { name: _, foreground } ==> !foreground,
{
    let instance = lemma_asked_for(options, replies, op);
    lemma_head_within(options, replies);
}

} // verus!
