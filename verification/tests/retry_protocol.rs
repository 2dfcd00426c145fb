use std::cell::RefCell;

use placement_center::base::error::CommonError;
use placement_center::clients::pool::ClientPool;
use placement_center::clients::retry::{
    get_forward_addr, is_forward_notice, retry_call, RetriableRequest, RetryPolicy, RetryState,
    RetryStep,
};

/// What a scripted node does with a call.
#[derive(Clone)]
enum Reply {
    Succeed,
    Fail(String),
    Forward(String),
    Unreachable,
}

/// A request against scripted nodes. It records every call and every pause.
struct Scripted {
    write: bool,
    nodes: Vec<(String, Reply)>,
    calls: RefCell<Vec<String>>,
    pauses: Vec<u64>,
}

impl Scripted {
    fn new(write: bool, nodes: &[(&str, Reply)]) -> Self {
        Scripted {
            write,
            nodes: nodes.iter().map(|(a, r)| (a.to_string(), r.clone())).collect(),
            calls: RefCell::new(Vec::new()),
            pauses: Vec::new(),
        }
    }

    fn reply_of(&self, addr: &str) -> Reply {
        for (a, r) in &self.nodes {
            if a == addr {
                return r.clone();
            }
        }
        Reply::Unreachable
    }
}

impl RetriableRequest for Scripted {
    type Client = String;
    type Response = String;

    fn is_write_request(&self) -> bool {
        self.write
    }

    fn get_client(&mut self, _pool: &mut ClientPool, addr: &str) -> Result<String, CommonError> {
        match self.reply_of(addr) {
            Reply::Unreachable => Err(CommonError::NoAvailableGrpcConnection(
                "PlacementService".to_string(),
                format!("cannot dial {}", addr),
            )),
            _ => Ok(addr.to_string()),
        }
    }

    fn call_once(&mut self, client: &mut String) -> Result<String, CommonError> {
        self.calls.borrow_mut().push(client.clone());
        match self.reply_of(client) {
            Reply::Succeed => Ok(format!("served by {}", client)),
            Reply::Fail(text) => Err(CommonError::CommonError(text)),
            Reply::Forward(leader) => Err(CommonError::ForwardToLeader(leader)),
            Reply::Unreachable => unreachable!(),
        }
    }

    fn pause(&mut self, secs: u64) {
        self.pauses.push(secs);
    }
}

fn forward_to(addr: &str) -> String {
    format!(
        "has to forward request to Some(Node {{ node_id: 3, rpc_addr: \"{}\" }})",
        addr
    )
}

fn addrs(list: &[&str]) -> Vec<String> {
    list.iter().map(|a| a.to_string()).collect()
}

#[test]
fn forward_addr_is_taken_from_the_notice() {
    let err = CommonError::CommonError(forward_to("127.0.0.1:1228"));
    assert_eq!(get_forward_addr(&err), Some("127.0.0.1:1228".to_string()));
}

#[test]
fn forward_addr_loses_quotes_backslashes_and_blanks() {
    let err = CommonError::CommonError(
        "status: forward request to Node { rpc_addr: \\\"10.0.0.7 : 9\\\" }".to_string(),
    );
    assert_eq!(get_forward_addr(&err), Some("10.0.0.7:9".to_string()));
}

#[test]
fn forward_addr_is_absent_without_the_label() {
    let err = CommonError::CommonError("forward request to nobody".to_string());
    assert_eq!(get_forward_addr(&err), None);
    let err = CommonError::CommonError("rpc_addr: }".to_string());
    assert_eq!(get_forward_addr(&err), None);
}

#[test]
fn write_is_redirected_to_the_reported_leader() {
    // The first address forwards to the third, and the third serves.
    let list = addrs(&["node-1:1228", "node-2:1228", "node-3:1228"]);
    let mut request = Scripted::new(
        true,
        &[
            ("node-1:1228", Reply::Fail(forward_to("node-3:1228"))),
            ("node-3:1228", Reply::Succeed),
        ],
    );
    let mut pool = ClientPool::new(3);
    let policy = RetryPolicy::default();
    let result = retry_call(&mut pool, &list, &mut request, &policy);
    assert_eq!(result.unwrap(), "served by node-3:1228");
    assert_eq!(
        *request.calls.borrow(),
        vec!["node-1:1228".to_string(), "node-3:1228".to_string()]
    );
    assert!(request.pauses.is_empty());
    assert_eq!(pool.get_leader_addr("node-1:1228"), Some("node-3:1228".to_string()));
    assert_eq!(pool.get_leader_addr("node-2:1228"), None);
}

#[test]
fn write_is_redirected_to_a_leader_outside_the_list() {
    let list = addrs(&["node-1:1228", "node-2:1228", "node-3:1228"]);
    let mut request = Scripted::new(
        true,
        &[
            ("node-1:1228", Reply::Fail(forward_to("node-4:1228"))),
            ("node-4:1228", Reply::Succeed),
        ],
    );
    let mut pool = ClientPool::new(3);
    let result = retry_call(&mut pool, &list, &mut request, &RetryPolicy::default());
    assert_eq!(result.unwrap(), "served by node-4:1228");
    assert_eq!(request.calls.borrow().len(), 2);
    assert_eq!(pool.get_leader_addr("node-1:1228"), Some("node-4:1228".to_string()));
}

#[test]
fn later_write_goes_straight_to_the_cached_leader() {
    let list = addrs(&["node-1:1228", "node-2:1228"]);
    let mut pool = ClientPool::new(3);
    pool.set_leader_addr("node-1:1228".to_string(), "node-9:1228".to_string());
    let mut request = Scripted::new(true, &[("node-9:1228", Reply::Succeed)]);
    let result = retry_call(&mut pool, &list, &mut request, &RetryPolicy::default());
    assert_eq!(result.unwrap(), "served by node-9:1228");
    assert_eq!(*request.calls.borrow(), vec!["node-9:1228".to_string()]);
}

#[test]
fn empty_address_list_fails_without_a_call() {
    let list: Vec<String> = Vec::new();
    let mut request = Scripted::new(true, &[("node-0:1228", Reply::Succeed)]);
    let mut pool = ClientPool::new(3);
    let result = retry_call(&mut pool, &list, &mut request, &RetryPolicy::default());
    let err = result.unwrap_err();
    assert_eq!(err.to_string(), "Call address list cannot be empty");
    assert!(request.calls.borrow().is_empty());
    assert!(request.pauses.is_empty());
    assert!(RetryState::start(&pool, &list, false).is_err());
}

#[test]
fn read_ignores_a_stale_leader_hint() {
    let list = addrs(&["node-1:1228", "node-2:1228"]);
    let mut pool = ClientPool::new(3);
    pool.set_leader_addr("node-1:1228".to_string(), "gone:1228".to_string());
    let mut request = Scripted::new(
        false,
        &[
            ("node-1:1228", Reply::Succeed),
            ("gone:1228", Reply::Fail("connection reset".to_string())),
        ],
    );
    let result = retry_call(&mut pool, &list, &mut request, &RetryPolicy::default());
    assert_eq!(result.unwrap(), "served by node-1:1228");
    assert_eq!(*request.calls.borrow(), vec!["node-1:1228".to_string()]);
}

#[test]
fn plain_failures_use_up_the_attempts() {
    let list = addrs(&["a:1", "b:1"]);
    let mut request = Scripted::new(
        false,
        &[
            ("a:1", Reply::Fail("busy".to_string())),
            ("b:1", Reply::Fail("busy".to_string())),
        ],
    );
    let mut pool = ClientPool::new(3);
    let policy = RetryPolicy { max_attempts: 3, backoff_step_secs: 2 };
    let err = retry_call(&mut pool, &list, &mut request, &policy).unwrap_err();
    assert_eq!(err.to_string(), "Not found leader");
    // Attempts 1 to 4 walk the list round and round, from its first address.
    assert_eq!(
        *request.calls.borrow(),
        vec!["a:1".to_string(), "b:1".to_string(), "a:1".to_string(), "b:1".to_string()]
    );
    // The pause before attempt n lasts n steps.
    assert_eq!(request.pauses, vec![4, 6, 8]);
}

#[test]
fn connect_failure_is_returned_at_once() {
    let list = addrs(&["a:1", "b:1"]);
    let mut request = Scripted::new(true, &[("b:1", Reply::Succeed)]);
    let mut pool = ClientPool::new(3);
    let err = retry_call(&mut pool, &list, &mut request, &RetryPolicy::default()).unwrap_err();
    assert_eq!(
        err.to_string(),
        "PlacementService connection pool has no connection information available. cannot dial a:1"
    );
    assert!(request.calls.borrow().is_empty());
    assert!(request.pauses.is_empty());
}

#[test]
fn leader_that_was_tried_ends_the_call() {
    // The node names itself as leader: the leader has been tried already.
    let list = addrs(&["a:1", "b:1"]);
    let notice = forward_to("a:1");
    let mut request = Scripted::new(true, &[("a:1", Reply::Fail(notice.clone()))]);
    let mut pool = ClientPool::new(3);
    let err = retry_call(&mut pool, &list, &mut request, &RetryPolicy::default()).unwrap_err();
    assert_eq!(err.to_string(), notice);
    assert_eq!(*request.calls.borrow(), vec!["a:1".to_string()]);
    assert_eq!(pool.get_leader_addr("a:1"), Some("a:1".to_string()));
}

#[test]
fn failed_follow_up_costs_an_attempt() {
    let list = addrs(&["a:1", "b:1"]);
    let mut request = Scripted::new(
        true,
        &[
            ("a:1", Reply::Fail(forward_to("c:1"))),
            ("c:1", Reply::Fail("still electing".to_string())),
            ("b:1", Reply::Succeed),
        ],
    );
    let mut pool = ClientPool::new(3);
    let result = retry_call(&mut pool, &list, &mut request, &RetryPolicy::default());
    assert_eq!(result.unwrap(), "served by b:1");
    assert_eq!(
        *request.calls.borrow(),
        vec!["a:1".to_string(), "c:1".to_string(), "b:1".to_string()]
    );
    assert_eq!(request.pauses, vec![4]);
}

#[test]
fn steps_can_be_driven_by_hand() {
    let list = addrs(&["a:1", "b:1", "c:1"]);
    let mut pool = ClientPool::new(3);
    let policy = RetryPolicy { max_attempts: 1, backoff_step_secs: 5 };
    let mut state = RetryState::start(&pool, &list, true).unwrap();
    assert_eq!(state.times(), 1);
    assert_eq!(state.candidate(), "a:1");
    assert_eq!(state.target(), "a:1");
    assert!(!state.is_follow_up());
    let step = state.call_failed(
        &mut pool,
        &list,
        true,
        &policy,
        CommonError::CommonError(forward_to("c:1")),
    );
    assert!(matches!(step, RetryStep::Call));
    assert!(state.is_follow_up());
    assert_eq!(state.target(), "c:1");
    let step = state.connect_failed(
        &pool,
        &list,
        true,
        &policy,
        CommonError::CommonError("refused".to_string()),
    );
    assert!(matches!(step, RetryStep::Sleep(10)));
    assert_eq!(state.times(), 2);
    assert_eq!(state.candidate(), "b:1");
    // The first address has a leader by now; the second has none.
    assert_eq!(state.target(), "b:1");
    assert_eq!(pool.get_leader_addr("a:1"), Some("c:1".to_string()));
    let step = state.call_failed(
        &mut pool,
        &list,
        true,
        &policy,
        CommonError::CommonError("busy".to_string()),
    );
    match step {
        RetryStep::Stop(e) => assert_eq!(e.to_string(), "Not found leader"),
        _ => panic!("the attempts are used up"),
    }
}

#[test]
fn forwarding_error_holds_the_address() {
    let err = CommonError::ForwardToLeader("10.0.0.3:1228".to_string());
    assert!(is_forward_notice(&err));
    assert_eq!(get_forward_addr(&err), Some("10.0.0.3:1228".to_string()));
    assert_eq!(err.to_string(), "forward request to 10.0.0.3:1228");
    assert!(is_forward_notice(&CommonError::CommonError(forward_to("a:1"))));
    assert!(!is_forward_notice(&CommonError::CommonError("rpc_addr: a:1".to_string())));
}

#[test]
fn forwarding_error_redirects_like_a_notice() {
    let list = addrs(&["node-1:1228", "node-2:1228", "node-3:1228"]);
    let mut request = Scripted::new(
        true,
        &[
            ("node-1:1228", Reply::Forward("node-3:1228".to_string())),
            ("node-3:1228", Reply::Succeed),
        ],
    );
    let mut pool = ClientPool::new(3);
    let result = retry_call(&mut pool, &list, &mut request, &RetryPolicy::default());
    assert_eq!(result.unwrap(), "served by node-3:1228");
    assert_eq!(
        *request.calls.borrow(),
        vec!["node-1:1228".to_string(), "node-3:1228".to_string()]
    );
    assert_eq!(pool.get_leader_addr("node-1:1228"), Some("node-3:1228".to_string()));
}

#[test]
fn notice_without_an_address_costs_an_attempt() {
    let list = addrs(&["a:1", "b:1"]);
    let mut request = Scripted::new(
        true,
        &[
            ("a:1", Reply::Fail("has to forward request to the leader".to_string())),
            ("b:1", Reply::Succeed),
        ],
    );
    let mut pool = ClientPool::new(3);
    let result = retry_call(&mut pool, &list, &mut request, &RetryPolicy::default());
    assert_eq!(result.unwrap(), "served by b:1");
    assert_eq!(request.pauses, vec![4]);
    assert_eq!(pool.get_leader_addr("a:1"), None);
}

#[test]
fn walk_begins_again_after_the_last_address() {
    let list = addrs(&["a:1", "b:1", "c:1"]);
    let mut request = Scripted::new(
        false,
        &[
            ("a:1", Reply::Fail("busy".to_string())),
            ("b:1", Reply::Fail("busy".to_string())),
            ("c:1", Reply::Fail("busy".to_string())),
        ],
    );
    let mut pool = ClientPool::new(3);
    let policy = RetryPolicy { max_attempts: 4, backoff_step_secs: 1 };
    let err = retry_call(&mut pool, &list, &mut request, &policy).unwrap_err();
    assert_eq!(err.to_string(), "Not found leader");
    assert_eq!(
        *request.calls.borrow(),
        vec![
            "a:1".to_string(),
            "b:1".to_string(),
            "c:1".to_string(),
            "a:1".to_string(),
            "b:1".to_string()
        ]
    );
    assert_eq!(request.pauses, vec![2, 3, 4, 5]);
}
