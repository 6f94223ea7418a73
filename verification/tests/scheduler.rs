use std::sync::Arc;

use axiom_kernel::bytecode::insn::BpfInsn;
use axiom_kernel::bytecode::program::{BpfProgType, BpfProgram, ProgramBuilder};
use axiom_kernel::execution::BpfContext;
use axiom_kernel::profile::{CloudProfile, EmbeddedProfile, PhysicalProfile};
use axiom_kernel::scheduler::{
    BpfExecRequest, BpfPolicy, BpfQueue, Deadline, DeadlinePolicy, EnergyBudget, ExecPriority, ProgId,
    QueuedProgram, SchedError, ThroughputPolicy, QUEUE_CAPACITY,
};

fn create_test_program<P: PhysicalProfile>() -> Arc<BpfProgram<P>> {
    let program = ProgramBuilder::<P>::new(BpfProgType::SocketFilter)
        .insn(BpfInsn::mov64_imm(0, 0))
        .insn(BpfInsn::exit())
        .build()
        .expect("valid program");
    Arc::new(program)
}

#[test]
fn policy_priority_ordering() {
    assert!(ExecPriority::Low < ExecPriority::Normal);
    assert!(ExecPriority::Normal < ExecPriority::High);
    assert!(ExecPriority::High < ExecPriority::Critical);
}

#[test]
fn default_priority() {
    assert_eq!(ExecPriority::default(), ExecPriority::Normal);
}

#[test]
fn throughput_policy_selects_highest_priority() {
    let mut policy = ThroughputPolicy::new();
    let mut queue = BpfQueue::<CloudProfile>::new();

    let req1 = BpfExecRequest::new(ProgId(1), create_test_program(), BpfContext::empty())
        .with_priority(ExecPriority::Low);
    queue.enqueue(QueuedProgram::from_request(req1)).unwrap();

    let req2 = BpfExecRequest::new(ProgId(2), create_test_program(), BpfContext::empty())
        .with_priority(ExecPriority::High);
    queue.enqueue(QueuedProgram::from_request(req2)).unwrap();

    let req3 = BpfExecRequest::new(ProgId(3), create_test_program(), BpfContext::empty())
        .with_priority(ExecPriority::Normal);
    queue.enqueue(QueuedProgram::from_request(req3)).unwrap();

    let prog = policy.select(&mut queue).expect("select");
    assert_eq!(prog.id, ProgId(2));
    assert_eq!(policy.exec_count(), 1);

    let prog = policy.select(&mut queue).expect("select");
    assert_eq!(prog.id, ProgId(3));

    let prog = policy.select(&mut queue).expect("select");
    assert_eq!(prog.id, ProgId(1));

    assert_eq!(policy.exec_count(), 3);
}

#[test]
fn throughput_policy_fifo_same_priority() {
    let mut policy = ThroughputPolicy::new();
    let mut queue = BpfQueue::<CloudProfile>::new();

    for i in 1..=3 {
        let req = BpfExecRequest::new(ProgId(i), create_test_program(), BpfContext::empty())
            .with_priority(ExecPriority::Normal);
        queue.enqueue(QueuedProgram::from_request(req)).unwrap();
    }

    assert_eq!(policy.select(&mut queue).unwrap().id, ProgId(1));
    assert_eq!(policy.select(&mut queue).unwrap().id, ProgId(2));
    assert_eq!(policy.select(&mut queue).unwrap().id, ProgId(3));
}

#[test]
fn deadline_creation() {
    let deadline = Deadline::new(1000, 500);
    assert_eq!(deadline.absolute_ns, 1000);
    assert_eq!(deadline.relative_ns, 500);
}

#[test]
fn deadline_from_now() {
    let deadline = Deadline::from_now(500, 300);
    assert_eq!(deadline.absolute_ns, 800);
    assert_eq!(deadline.relative_ns, 300);
}

#[test]
fn deadline_expiration() {
    let deadline = Deadline::new(1000, 500);

    assert!(!deadline.is_expired(500));
    assert!(!deadline.is_expired(999));
    assert!(deadline.is_expired(1000));
    assert!(deadline.is_expired(2000));
}

#[test]
fn deadline_deadline_time_remaining() {
    let deadline = Deadline::new(1000, 500);

    assert_eq!(deadline.time_remaining(0), 1000);
    assert_eq!(deadline.time_remaining(500), 500);
    assert_eq!(deadline.time_remaining(1000), 0);
    assert_eq!(deadline.time_remaining(2000), 0);
}

#[test]
fn deadline_policy_selects_earliest() {
    let mut policy = DeadlinePolicy::new();
    let mut queue = BpfQueue::<EmbeddedProfile>::new();

    let mut req1 = BpfExecRequest::new(ProgId(1), create_test_program(), BpfContext::empty());
    req1.deadline = Some(Deadline::new(2000, 1000));
    queue.enqueue(QueuedProgram::from_request(req1)).unwrap();

    let mut req2 = BpfExecRequest::new(ProgId(2), create_test_program(), BpfContext::empty());
    req2.deadline = Some(Deadline::new(500, 500));
    queue.enqueue(QueuedProgram::from_request(req2)).unwrap();

    let mut req3 = BpfExecRequest::new(ProgId(3), create_test_program(), BpfContext::empty());
    req3.deadline = Some(Deadline::new(1000, 500));
    queue.enqueue(QueuedProgram::from_request(req3)).unwrap();

    let prog = policy.select(&mut queue).expect("select");
    assert_eq!(prog.id, ProgId(2));

    let prog = policy.select(&mut queue).expect("select");
    assert_eq!(prog.id, ProgId(3));

    let prog = policy.select(&mut queue).expect("select");
    assert_eq!(prog.id, ProgId(1));
}

#[test]
fn deadline_miss_tracking() {
    let mut policy = DeadlinePolicy::new();
    policy.update_time(600);

    let mut queue = BpfQueue::<EmbeddedProfile>::new();

    let mut req = BpfExecRequest::new(ProgId(1), create_test_program(), BpfContext::empty());
    req.deadline = Some(Deadline::new(500, 500));
    queue.enqueue(QueuedProgram::from_request(req)).unwrap();

    let _prog = policy.select(&mut queue).expect("select");

    assert_eq!(policy.deadline_misses(), 1);
}

#[test]
fn fallback_to_priority_without_deadline() {
    let mut policy = DeadlinePolicy::new();
    let mut queue = BpfQueue::<EmbeddedProfile>::new();

    let req1 = BpfExecRequest::new(ProgId(1), create_test_program(), BpfContext::empty())
        .with_priority(ExecPriority::Low);
    queue.enqueue(QueuedProgram::from_request(req1)).unwrap();

    let req2 = BpfExecRequest::new(ProgId(2), create_test_program(), BpfContext::empty())
        .with_priority(ExecPriority::High);
    queue.enqueue(QueuedProgram::from_request(req2)).unwrap();

    let prog = policy.select(&mut queue).expect("select");
    assert_eq!(prog.id, ProgId(2));
}

#[test]
fn programs_with_deadline_go_before_higher_priority() {
    let mut policy = DeadlinePolicy::new();
    let mut queue = BpfQueue::<EmbeddedProfile>::new();
    let req1 = BpfExecRequest::new(ProgId(1), create_test_program(), BpfContext::empty())
        .with_priority(ExecPriority::Critical);
    queue.enqueue(QueuedProgram::from_request(req1)).unwrap();
    let mut req2 = BpfExecRequest::new(ProgId(2), create_test_program(), BpfContext::empty());
    req2.deadline = Some(Deadline::new(9000, 9000));
    queue.enqueue(QueuedProgram::from_request(req2)).unwrap();
    assert_eq!(policy.select(&mut queue).unwrap().id, ProgId(2));
    assert_eq!(policy.select(&mut queue).unwrap().id, ProgId(1));
    assert!(policy.select(&mut queue).is_none());
    assert_eq!(policy.exec_count(), 2);
    assert_eq!(policy.deadline_misses(), 0);
}

#[test]
fn full_queue_refuses_programs() {
    let mut queue = BpfQueue::<CloudProfile>::new();
    let program = create_test_program::<CloudProfile>();
    for i in 0..QUEUE_CAPACITY {
        let req = BpfExecRequest::new(ProgId(i as u64), program.clone(), BpfContext::empty());
        queue.enqueue(QueuedProgram::from_request(req)).unwrap();
    }
    assert!(queue.is_full());
    let extra = QueuedProgram::from_request(BpfExecRequest::new(ProgId(999), program, BpfContext::empty()));
    let policy = ThroughputPolicy::new();
    assert_eq!(policy.check_admission(&queue, &extra), Err(SchedError::QueueFull));
    assert_eq!(queue.enqueue(extra), Err(SchedError::QueueFull));
    assert_eq!(queue.len(), QUEUE_CAPACITY);
}

#[test]
fn deadline_policy_refuses_expired_deadline() {
    let mut policy = DeadlinePolicy::new();
    policy.update_time(1000);
    assert_eq!(policy.current_time(), 1000);
    let queue = BpfQueue::<EmbeddedProfile>::new();
    let mut req = BpfExecRequest::new(ProgId(7), create_test_program(), BpfContext::empty());
    req.deadline = Some(Deadline::new(1000, 10));
    let late = QueuedProgram::from_request(req);
    assert_eq!(policy.check_admission(&queue, &late), Err(SchedError::InvalidDeadline));
    let mut req = BpfExecRequest::new(ProgId(8), create_test_program(), BpfContext::empty());
    req.deadline = Some(Deadline::new(1001, 10));
    assert_eq!(policy.check_admission(&queue, &QueuedProgram::from_request(req)), Ok(()));
}

#[test]
fn remove_at_out_of_range_is_none() {
    let mut queue = BpfQueue::<CloudProfile>::new();
    assert!(queue.remove_at(0).is_none());
    assert_eq!(queue.find_highest_priority(), None);
    assert_eq!(queue.find_earliest_deadline(), None);
    assert_eq!(EnergyBudget::new(5).max_uj, 5);
    assert_eq!(Deadline::from_now(u64::MAX - 1, 10).absolute_ns, u64::MAX);
}
