use placement_center::base::error::{CommonError, NezaMQError};
use placement_center::base::http_response::{error_response, success_response};
use placement_center::base::text::{str_contains, str_eq, strip_address, u64_to_string};
use placement_center::base::tools::now_second;
use placement_center::clients::placement::{
    KvServiceManager, OpenRaftServiceManager, PlacementServiceManager,
};
use placement_center::clients::pool::{no_available_connection, ClientPool};
use placement_center::clients::retry::{retry_sleep_time, retry_times, RetryPolicy};
use placement_center::config::common::{default_prometheus, default_prometheus_port};
use placement_center::config::default_placement_center::{
    default_cluster_name, default_data_path, default_grpc_port, default_hearbeat_timeout_ms,
    default_heartbeat, default_heartbeat_check_time_ms, default_http_port, default_local_ip,
    default_log, default_max_open_files, default_network, default_node, default_node_id,
    default_nodes, default_placement_center_conf, default_rocksdb, default_runtime_work_threads,
    default_system,
};
use placement_center::raft::error::{to_error, ErrorSubject, ErrorVerb, RPCError, StorageError};
use placement_center::server::grpc::{GrpcBrokerServices, GrpcServer};
use placement_center::server::http::{
    index_path, path_create, path_delete, path_list, path_update, v1_path, HttpServerState,
};

#[test]
fn text_helpers() {
    assert!(str_contains("has to forward request to x", "forward request to"));
    assert!(!str_contains("forward request", "forward request to"));
    assert!(str_contains("abc", ""));
    assert!(str_contains("", ""));
    assert!(!str_contains("", "a"));
    assert!(str_contains("aab", "ab"));
    assert!(str_contains("ünïcödé", "cö"));
    assert!(str_eq("abc", "abc"));
    assert!(!str_eq("abc", "abd"));
    assert!(!str_eq("abc", "ab"));
    assert_eq!(strip_address(" \\\"127.0.0.1:1228\\\" "), "127.0.0.1:1228");
    assert_eq!(strip_address(""), "");
    assert_eq!(u64_to_string(0), "0");
    assert_eq!(u64_to_string(9), "9");
    assert_eq!(u64_to_string(10), "10");
    assert_eq!(u64_to_string(1234567890), "1234567890");
    assert_eq!(u64_to_string(u64::MAX), "18446744073709551615");
}

#[test]
fn errors_as_text() {
    assert_eq!(CommonError::CommonError("boom".to_string()).to_string(), "boom");
    assert_eq!(CommonError::FromIoError("disk".to_string()).to_string(), "disk");
    assert_eq!(
        CommonError::NoAvailableGrpcConnection("KvService".to_string(), "timeout".to_string())
            .to_string(),
        "KvService connection pool has no connection information available. timeout"
    );
    assert_eq!(
        no_available_connection("OpenRaftService", "pool closed".to_string()).to_string(),
        "OpenRaftService connection pool has no connection information available. pool closed"
    );
    assert_eq!(NezaMQError::CommonError("x".to_string()).to_string(), "x");
    assert_eq!(NezaMQError::IOJsonError("detail".to_string()).to_string(), "io error");
    match to_error(NezaMQError::CommonError("no route".to_string())) {
        RPCError::Unreachable(cause) => assert_eq!(cause, "no route"),
    }
    let e = StorageError::new(ErrorSubject::Logs, ErrorVerb::Seek, "x".to_string());
    assert_eq!((e.subject, e.verb), (ErrorSubject::Logs, ErrorVerb::Seek));
    let e = StorageError::write_vote("x".to_string());
    assert_eq!((e.subject, e.verb), (ErrorSubject::Vote, ErrorVerb::Write));
    let e = StorageError::write_logs("x".to_string());
    assert_eq!((e.subject, e.verb), (ErrorSubject::Logs, ErrorVerb::Write));
    let e = StorageError::write("x".to_string());
    assert_eq!((e.subject, e.verb), (ErrorSubject::Store, ErrorVerb::Write));
}

#[test]
fn time_is_after_2020() {
    assert!(now_second() > 1_577_836_800);
}

#[test]
fn responses_are_json_objects() {
    assert_eq!(success_response("{}"), Some("{\"code\":0,\"data\":\"{}\"}".to_string()));
    assert_eq!(
        error_response("no \"leader\"".to_string()),
        Some("{\"code\":100,\"data\":\"no \\\"leader\\\"\"}".to_string())
    );
}

#[test]
fn connectors_dial_http() {
    let manager = PlacementServiceManager::new("127.0.0.1:1228".to_string());
    assert_eq!(manager.addr, "127.0.0.1:1228");
    assert_eq!(manager.endpoint(), "http://127.0.0.1:1228");
    assert_eq!(
        manager.connect_error("refused").to_string(),
        "manager connect error:refused,127.0.0.1:1228"
    );
    let manager = KvServiceManager::new("n:1".to_string());
    assert_eq!(manager.endpoint(), "http://n:1");
    assert_eq!(manager.connect_error("refused").to_string(), "refused,n:1");
    let manager = OpenRaftServiceManager::new("n:2".to_string());
    assert_eq!(manager.endpoint(), "http://n:2");
    assert_eq!(manager.connect_error("refused").to_string(), "refused,http://n:2");
}

#[test]
fn pools_are_made_on_first_request() {
    let mut pool = ClientPool::new(7);
    let first = pool.placement_center_inner_service_client("a:1");
    assert!(first.created);
    assert_eq!(first.max_open, 7);
    assert_eq!(first.manager.addr, "a:1");
    let second = pool.placement_center_inner_service_client("a:1");
    assert!(!second.created);
    assert_eq!(second.max_open, 7);
    // The services keep their pools apart.
    let raft = pool.placement_center_openraft_service_client("a:1");
    assert!(raft.created);
    assert_eq!(raft.manager.addr, "a:1");
    assert!(!pool.placement_center_openraft_service_client("a:1").created);
    assert!(pool.placement_center_openraft_service_client("b:1").created);
}

#[test]
fn leader_hints_are_overwritten() {
    let mut pool = ClientPool::new(1);
    assert_eq!(pool.get_leader_addr("a:1"), None);
    pool.set_leader_addr("a:1".to_string(), "b:1".to_string());
    pool.set_leader_addr("c:1".to_string(), "b:1".to_string());
    assert_eq!(pool.get_leader_addr("a:1"), Some("b:1".to_string()));
    pool.set_leader_addr("a:1".to_string(), "c:1".to_string());
    assert_eq!(pool.get_leader_addr("a:1"), Some("c:1".to_string()));
    assert_eq!(pool.get_leader_addr("c:1"), Some("b:1".to_string()));
    assert_eq!(pool.get_leader_addr("b:1"), None);
}

#[test]
fn default_policy() {
    assert_eq!(retry_times(), 16);
    assert_eq!(retry_sleep_time(3), 6);
    assert_eq!(RetryPolicy::default(), RetryPolicy { max_attempts: 16, backoff_step_secs: 2 });
}

#[test]
fn defaults() {
    let p = default_prometheus();
    assert!(!p.enable);
    assert_eq!(p.model, "pull");
    assert_eq!(p.port, 9090);
    assert_eq!(p.push_gateway_server, "");
    assert_eq!(p.interval, 10);
    assert_eq!(p.header, "");
    assert_eq!(default_prometheus_port(), 9090);
    assert_eq!(default_cluster_name(), "placement-center");
    assert_eq!(default_node_id(), 1);
    assert_eq!(default_local_ip(), "127.0.0.1");
    assert_eq!(default_grpc_port(), 1228);
    assert_eq!(default_http_port(), 1227);
    assert_eq!(default_runtime_work_threads(), 100);
    assert_eq!(default_system().runtime_work_threads, 100);
    assert_eq!(default_data_path(), "./nezamq-data/placement-center/data");
    assert_eq!(default_log().log_config, "./logs/placement-center");
    assert_eq!(default_log().log_path, "./config/log4rs.yaml");
    assert_eq!(default_max_open_files(), Some(10000));
    assert_eq!(default_rocksdb().data_path, "./nezamq-data/placement-center/data");
    assert_eq!(default_rocksdb().max_open_files, Some(10000));
    assert_eq!(default_hearbeat_timeout_ms(), 3000);
    assert_eq!(default_heartbeat_check_time_ms(), 1000);
    assert_eq!(default_heartbeat().hearbeat_timeout_ms, 3000);
    assert_eq!(default_heartbeat().heartbeat_check_time_ms, 1000);
    let network = default_network();
    assert_eq!(network.local_id, "127.0.0.1");
    assert_eq!(network.grpc_port, 1228);
    assert_eq!(network.http_port, 1227);
}

#[test]
fn default_peers() {
    let nodes = default_nodes();
    assert_eq!(nodes.len(), 1);
    assert_eq!(nodes.get("1").and_then(|v| v.as_str()), Some("127.0.0.1:1228"));
    let node = default_node();
    assert_eq!(node.node_id, 1);
    assert_eq!(node.nodes.len(), 1);
    let conf = default_placement_center_conf();
    assert_eq!(conf.node.node_id, 1);
    assert_eq!(conf.network.grpc_port, 1228);
    assert_eq!(conf.cluster_name, "placement-center");
}

#[test]
fn http_paths() {
    assert_eq!(v1_path("/index"), "/v1/index");
    assert_eq!(path_list("/index"), "/index/list");
    assert_eq!(path_delete("/user"), "/user/delete");
    assert_eq!(path_create("/user"), "/user/create");
    assert_eq!(path_update("/user"), "/user/update");
    assert_eq!(index_path(), "/v1/index/list");
    let mut kvs = std::collections::BTreeMap::new();
    kvs.insert("a".to_string(), "1".to_string());
    let state = HttpServerState::new(kvs.clone());
    assert_eq!(state.kvs, kvs);
}

#[test]
fn grpc_front_end() {
    assert_eq!(GrpcServer::new(1228).listen_addr(), "0.0.0.0:1228");
    let mut services = GrpcBrokerServices::new();
    assert!(!services.exist("mq"));
    assert_eq!(services.get("mq"), "");
    services.set("mq".to_string(), "nezama".to_string());
    assert!(services.exist("mq"));
    assert_eq!(services.get("mq"), "nezama");
    services.set("mq".to_string(), "again".to_string());
    assert_eq!(services.get("mq"), "again");
    services.delete("mq");
    assert!(!services.exist("mq"));
    assert_eq!(services.get("mq"), "");
}
