use omicron::instance_start::{
    list_steps, make_saga_dag, sis_account_virtual_resources, sis_account_virtual_resources_undo,
    sis_alloc_server, sis_create_vmm_record, sis_destroy_vmm_record,
    sis_destroy_vmm_record_marked, sis_dpd_ensure, sis_dpd_ensure_undo, sis_ensure_registered,
    sis_ensure_registered_request, sis_ensure_registered_undo, sis_ensure_registered_undo_marked,
    sis_ensure_running, sis_ensure_running_request, sis_generate_propolis_id,
    sis_move_to_starting, sis_move_to_starting_at, sis_move_to_starting_undo,
    sis_move_to_starting_updated, sis_move_to_starting_writes, ActionError, Instance,
    InstanceAndActiveVmm, InstanceRegisterReason, InstanceRuntimeState, InstanceState,
    InstanceStateChangeError, InstanceStateChangeRequest, MoveToStarting, Params, Reason,
    RegisterRequest, Reincarnatability, SagaInitError, SledAgentInstanceError, StateRequest, Step,
    UnregisterOutcome, Vmm, VmmState, MAX_GENERATION,
};
use omicron::time::Timestamp;

const TIME: Timestamp = Timestamp { secs: 1_700_000_000, nanos: 0 };
const NOW: Timestamp = Timestamp { secs: 1_700_000_100, nanos: 0 };
const PROPOLIS: u128 = 0x99;

fn instance() -> Instance {
    Instance {
        id: 1,
        project_id: 2,
        ncpus: 4,
        memory: 1 << 33,
        runtime_state: InstanceRuntimeState {
            time_updated: TIME,
            generation: 10,
            propolis_id: None,
            dst_propolis_id: None,
            migration_id: None,
            nexus_state: InstanceState::NoVmm,
            time_last_auto_restarted: None,
        },
    }
}

fn vmm(id: u128, state: VmmState) -> Vmm {
    Vmm { id, instance_id: 1, sled_id: 3, propolis_ip: 5, state }
}

fn params(reason: Reason) -> Params {
    Params { db_instance: instance(), reason }
}

fn sled_agent(status: u16) -> InstanceStateChangeError {
    InstanceStateChangeError::SledAgent(SledAgentInstanceError {
        message: format!("status {status}"),
        vmm_gone: status == 404,
    })
}

#[test]
fn the_steps_of_the_saga() {
    let steps = list_steps();
    let outputs: Vec<&str> = steps.iter().map(|step| step.output()).collect();
    assert_eq!(outputs[..5], ["propolis_id", "sled_id", "propolis_ip", "vmm_record", "started_record"]);
    assert_eq!(steps.last(), Some(&Step::EnsureRunning));
    // What a step looks up was put out before it.
    for (i, step) in steps.iter().enumerate() {
        for looked_up in step.lookups() {
            assert!(steps[..i].contains(&looked_up));
        }
    }
    assert!(Step::AllocServer.has_undo());
    assert!(!Step::GeneratePropolisId.has_undo());
    assert!(!Step::EnsureRunning.has_undo());
}

fn node(name: &str) -> steno::Node {
    steno::Node::constant(name, serde_json::Value::Null)
}

fn dag_builder() -> steno::DagBuilder {
    steno::DagBuilder::new(steno::SagaName::new("instance-start"))
}

#[test]
fn the_graph_of_the_saga() {
    let dag = match make_saga_dag(dag_builder()) {
        Ok(dag) => steno::SagaDag::new(dag, serde_json::Value::Null),
        Err(SagaInitError::DagBuildError(error)) => panic!("{error}"),
    };
    let names: Vec<String> =
        dag.get_nodes().map(|entry| entry.name().as_ref().to_string()).collect();
    let outputs: Vec<&str> = list_steps().iter().map(|step| step.output()).collect();
    assert_eq!(names, outputs);
    let shown = serde_json::to_string(&dag).unwrap();
    for step in list_steps() {
        assert!(shown.contains(&format!("\"{}\"", step.action_name())));
    }
    assert_eq!(Step::MarkAsStarting.label(), "mark_as_starting");
    assert_eq!(Step::MarkAsStarting.action_name(), "instance_start.mark_as_starting");
}

#[test]
fn graphs_that_cannot_be_built() {
    let mut builder = dag_builder();
    builder.append(node("sled_id"));
    assert!(make_saga_dag(builder).is_err());
    let mut builder = dag_builder();
    builder.append(node("a"));
    builder.append(node("a"));
    assert!(make_saga_dag(builder).is_err());
    let mut builder = dag_builder();
    builder.append_parallel(vec![node("a"), node("b")]);
    assert!(make_saga_dag(builder).is_ok());
}

#[test]
fn requests_of_the_steps() {
    let p = params(Reason::User);
    assert_ne!(sis_generate_propolis_id(), sis_generate_propolis_id());
    let reservation = sis_alloc_server(&p, PROPOLIS);
    assert_eq!(reservation.hardware_threads, 4);
    assert_eq!(reservation.reservoir_ram, 1 << 33);
    assert_eq!((reservation.instance_id, reservation.propolis_id), (1, PROPOLIS));
    let record = sis_create_vmm_record(&p, PROPOLIS, 3, 5);
    assert_eq!(
        (record.instance_id, record.propolis_id, record.sled_id, record.propolis_ip),
        (1, PROPOLIS, 3, 5)
    );
    let accounted = sis_account_virtual_resources(&p);
    assert_eq!((accounted.cpus, accounted.memory, accounted.project_id), (4, 1 << 33, 2));
    assert_eq!(accounted, sis_account_virtual_resources_undo(&p));
    let dpd = sis_dpd_ensure(&instance(), 3);
    assert_eq!((dpd.instance_id, dpd.sled_id, dpd.ip_filter), (1, 3, None));
    assert_eq!(sis_dpd_ensure_undo(&p), 1);
    let created = vmm(PROPOLIS, VmmState::Creating);
    assert_eq!(
        sis_ensure_registered_request(&instance(), PROPOLIS, &created),
        RegisterRequest {
            db_instance: instance(),
            propolis_id: PROPOLIS,
            vmm_record: created,
            reason: InstanceRegisterReason::Start { vmm_id: PROPOLIS },
        }
    );
    let registered = vmm(PROPOLIS, VmmState::Starting);
    assert_eq!(
        sis_ensure_running_request(&instance(), &registered),
        StateRequest {
            db_instance: instance(),
            vmm: Some(registered),
            requested: InstanceStateChangeRequest::Run,
        }
    );
}

#[test]
fn the_last_generation_is_no_bar_to_what_is_not_written() {
    let mut last = instance();
    last.runtime_state.generation = MAX_GENERATION;
    let state = |vmm| InstanceAndActiveVmm { instance: last, vmm };
    let p = params(Reason::User);
    let there = state(Some(vmm(PROPOLIS, VmmState::Starting)));
    assert!(!sis_move_to_starting_writes(PROPOLIS, &there));
    assert!(matches!(
        sis_move_to_starting_at(&p, PROPOLIS, &there, NOW),
        MoveToStarting::AlreadyDone(record) if record == last
    ));
    let other = state(Some(vmm(7, VmmState::Running)));
    assert!(!sis_move_to_starting_writes(PROPOLIS, &other));
    assert!(matches!(
        sis_move_to_starting(&p, PROPOLIS, &other),
        MoveToStarting::Conflict(ActionError::Conflict(_))
    ));
    assert!(sis_move_to_starting_writes(PROPOLIS, &state(None)));
    assert!(sis_move_to_starting_writes(PROPOLIS, &state(Some(vmm(7, VmmState::SagaUnwound)))));
}

#[test]
fn unwound_instances_may_reincarnate() {
    assert!(sis_destroy_vmm_record(Reincarnatability::WillReincarnate));
    assert!(!sis_destroy_vmm_record(Reincarnatability::CoolingDown));
    assert!(!sis_destroy_vmm_record(Reincarnatability::Never));
    let (will, never) = (Reincarnatability::WillReincarnate, Reincarnatability::Never);
    assert_eq!(sis_destroy_vmm_record_marked(Ok(()), will), Ok(true));
    assert_eq!(sis_destroy_vmm_record_marked(Ok(()), never), Ok(false));
    // Nothing is activated where the record could not be marked.
    let error = "database".to_string();
    assert_eq!(sis_destroy_vmm_record_marked(Err(error.clone()), will), Err(error));
}

#[test]
fn an_instance_without_a_vmm_moves_to_starting() {
    let state = InstanceAndActiveVmm { instance: instance(), vmm: None };
    match sis_move_to_starting_at(&params(Reason::User), PROPOLIS, &state, NOW) {
        MoveToStarting::Update { new_runtime, abandoned_unwound_vmm } => {
            assert_eq!(new_runtime.nexus_state, InstanceState::Vmm);
            assert_eq!(new_runtime.propolis_id, Some(PROPOLIS));
            assert_eq!(new_runtime.generation, 11);
            assert_eq!(new_runtime.time_last_auto_restarted, None);
            assert!(!abandoned_unwound_vmm);

            let updated = |abandoned, updated| {
                sis_move_to_starting_updated(&state.instance, new_runtime, abandoned, updated)
            };
            let (started, activate_reaper) = updated(false, true).unwrap();
            assert!(!activate_reaper);
            assert!(updated(true, true).unwrap().1);
            assert_eq!(started.runtime_state, new_runtime);
            let stopped = sis_move_to_starting_undo(&started);
            assert_eq!(stopped.nexus_state, InstanceState::NoVmm);
            assert_eq!(stopped.propolis_id, None);
            assert_eq!(stopped.generation, 12);

            assert!(matches!(
                updated(false, false),
                Err(ActionError::Conflict("instance changed state before it could be started"))
            ));
        }
        other => panic!("{other:?}"),
    }
}

#[test]
fn automatic_restarts_are_remembered() {
    let state = InstanceAndActiveVmm { instance: instance(), vmm: None };
    match sis_move_to_starting_at(&params(Reason::AutoRestart), PROPOLIS, &state, NOW) {
        MoveToStarting::Update { new_runtime, .. } => {
            assert_eq!(new_runtime.time_last_auto_restarted, Some(NOW))
        }
        other => panic!("{other:?}"),
    }
    match sis_move_to_starting(&params(Reason::AutoRestart), PROPOLIS, &state) {
        MoveToStarting::Update { new_runtime, .. } => {
            assert!(new_runtime.time_last_auto_restarted.unwrap().secs > TIME.secs)
        }
        other => panic!("{other:?}"),
    }
}

#[test]
fn a_vmm_that_is_already_there() {
    let moved = |vmm| {
        let state = InstanceAndActiveVmm { instance: instance(), vmm: Some(vmm) };
        sis_move_to_starting_at(&params(Reason::User), PROPOLIS, &state, NOW)
    };
    assert!(matches!(
        moved(vmm(PROPOLIS, VmmState::Starting)),
        MoveToStarting::AlreadyDone(i) if i == instance()
    ));
    assert!(matches!(
        moved(vmm(0x77, VmmState::SagaUnwound)),
        MoveToStarting::Update { abandoned_unwound_vmm: true, .. }
    ));
    assert!(matches!(
        moved(vmm(0x77, VmmState::Running)),
        MoveToStarting::Conflict(ActionError::Conflict(_))
    ));
}

#[test]
fn sled_agents_register_and_run_instances() {
    let registered = vmm(PROPOLIS, VmmState::Starting);
    assert_eq!(sis_ensure_registered(Ok(registered)).unwrap(), registered);
    assert!(sis_ensure_registered(Err(sled_agent(500))).is_err());
    assert!(sis_ensure_running(Ok(())).is_ok());
    let internal = InstanceStateChangeError::Other("oops".to_string());
    assert!(sis_ensure_running(Err(internal)).is_err());
}

#[test]
fn unregistering_an_instance() {
    assert!(matches!(sis_ensure_registered_undo(Ok(())), UnregisterOutcome::Continue));
    // The sled agent is in good shape, but does not know the instance.
    assert!(matches!(sis_ensure_registered_undo(Err(sled_agent(500))), UnregisterOutcome::Continue));
    match sis_ensure_registered_undo(Err(sled_agent(404))) {
        UnregisterOutcome::MarkVmmFailed(inner) => {
            let marked = SledAgentInstanceError { message: inner.message.clone(), vmm_gone: true };
            assert_eq!(sis_ensure_registered_undo_marked(inner, Ok(())), "status 404");
            assert_eq!(
                sis_ensure_registered_undo_marked(marked, Err("database".to_string())),
                "database"
            );
        }
        other => panic!("{other:?}"),
    }
    let internal = InstanceStateChangeError::Other("oops".to_string());
    assert!(matches!(
        sis_ensure_registered_undo(Err(internal)),
        UnregisterOutcome::Bail(message) if message == "oops"
    ));
}
