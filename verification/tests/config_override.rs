use placement_center::config::env_override::{
    bare_line, classify_line, env_key, override_by_values, override_line, split_lines,
    value_of_variable, variables, LineKind,
};
use placement_center::route::data::{StorageData, StorageDataType};
use placement_center::server::grpc::GrpcBrokerServices;

fn env(pairs: &[(&str, &str)]) -> Vec<(String, String)> {
    pairs.iter().map(|(n, v)| (n.to_string(), v.to_string())).collect()
}

#[test]
fn override_default_by_env() {
    let toml_content = r#"
        [server]
        port=8080
        "#;
    let env_prefix = "APP";
    let variables = env(&[("APP_SERVER_PORT", "8081")]);
    let new_toml_content = override_by_values(toml_content, env_prefix, &variables);
    assert_eq!(
        new_toml_content,
        r#"
        [server]
        port=8081
        "#
    );
}

#[test]
fn lines_are_split_at_line_feeds() {
    let samples = [
        "",
        "a",
        "a\n",
        "\n",
        "\n\n",
        "a\nb",
        "a\r\nb\r\n",
        "a\r",
        "a\rb\n",
        "\r\n",
        "\r",
        "a\n\nb\n\n",
        "  [s] \r\n k = v \r\n# c",
        "\u{e9}t\u{e9}\n\u{4e2d}\r\n",
    ];
    for sample in samples {
        let expected: Vec<String> = sample.lines().map(|l| l.to_string()).collect();
        assert_eq!(split_lines(sample), expected, "lines of {:?}", sample);
    }
    assert_eq!(split_lines("a\r\nb"), vec!["a".to_string(), "b".to_string()]);
    assert_eq!(split_lines("a\r"), vec!["a\r".to_string()]);
}

#[test]
fn lines_are_looked_at_without_blanks() {
    let samples = [
        "",
        " ",
        "  port = 8080  ",
        "\t[ server ]\t",
        "\u{a0} a b \u{3000}",
        "a\tb",
        " \r",
        "x",
        " x",
        "x ",
    ];
    for sample in samples {
        assert_eq!(bare_line(sample), sample.trim().replace(" ", ""), "bare {:?}", sample);
    }
    assert_eq!(bare_line("  port = 8080  "), "port=8080");
    // A tab inside the line stays: only blanks are taken out.
    assert_eq!(bare_line(" a\tb c "), "a\tbc");
}

#[test]
fn entries_belong_to_the_section_before_them() {
    let lines = split_lines("top=1\n[a]\nx.y = 1\n# note\n[ b.c ]\n\nz=2\nplain");
    let vars = variables(&lines, "P");
    assert_eq!(
        vars,
        vec![
            Some("P__TOP".to_string()),
            None,
            Some("P_A_X_Y".to_string()),
            None,
            None,
            None,
            Some("P_B.C_Z".to_string()),
            None,
        ]
    );
}

#[test]
fn variables_are_looked_up_by_name() {
    let variables = env(&[("A", "1"), ("B", "2"), ("A", "3")]);
    assert_eq!(value_of_variable(&variables, "A"), Some("1".to_string()));
    assert_eq!(value_of_variable(&variables, "B"), Some("2".to_string()));
    assert_eq!(value_of_variable(&variables, "C"), None);
    assert_eq!(value_of_variable(&Vec::new(), "A"), None);
}

#[test]
fn variable_overrides_the_last_of_its_entries() {
    let content = "[s]\nk=1\nk=2\n[t]\nk=3";
    let variables = env(&[("P_S_K", "9"), ("P_T_K", "8")]);
    assert_eq!(override_by_values(content, "P", &variables), "[s]\nk=1\nk=9\n[t]\nk=8");
}

#[test]
fn lines_without_a_variable_stay() {
    let content = "# head\n[node]\nnode_id = 1\nname=\"n\"\n\n[network]\ngrpc.port=1228\n";
    let variables = env(&[
        ("PC_NETWORK_GRPC_PORT", "9"),
        ("PC_NODE_NAME", "\"m\""),
        ("PC_NODE_MISSING", "1"),
    ]);
    assert_eq!(
        override_by_values(content, "PC", &variables),
        "# head\n[node]\nnode_id = 1\nname=\"m\"\n\n[network]\ngrpc.port=9"
    );
    assert_eq!(override_by_values(content, "PC", &Vec::new()), content.trim_end());
    assert_eq!(override_by_values("", "PC", &variables), "");
    assert_eq!(override_by_values("\n", "PC", &variables), "");
    assert_eq!(override_by_values("a\n\nb", "PC", &variables), "a\n\nb");
}

#[test]
fn lower_case_names_are_raised() {
    let variables = env(&[("APP_SERVER_PORT", "1"), ("APP_STRASSE_\u{c4}", "2")]);
    assert_eq!(
        override_by_values("[server]\nPort=0\n[stra\u{df}e]\n\u{e4}=0", "APP", &variables),
        "[server]\nPort=1\n[stra\u{df}e]\n\u{e4}=2"
    );
}

#[test]
fn lines_are_told_apart() {
    assert_eq!(classify_line(""), LineKind::Skip);
    assert_eq!(classify_line("#port=1"), LineKind::Skip);
    assert_eq!(classify_line("[server]"), LineKind::Section("server".to_string()));
    assert_eq!(classify_line("[a.b]"), LineKind::Section("a.b".to_string()));
    assert_eq!(classify_line("[]"), LineKind::Section(String::new()));
    assert_eq!(classify_line("["), LineKind::Section(String::new()));
    assert_eq!(classify_line("port=8080"), LineKind::Entry("port".to_string()));
    assert_eq!(classify_line("a=b=c"), LineKind::Entry("a".to_string()));
    assert_eq!(classify_line("=1"), LineKind::Entry(String::new()));
    assert_eq!(classify_line("port"), LineKind::Skip);
}

#[test]
fn variables_are_named_by_prefix_section_and_key() {
    assert_eq!(env_key("APP", "SERVER", "PORT"), "APP_SERVER_PORT");
    assert_eq!(env_key("APP", "", "A.B.C"), "APP__A_B_C");
    assert_eq!(env_key("", "S", ""), "_S_");
}

#[test]
fn override_keeps_what_stands_before_the_equals_sign() {
    assert_eq!(override_line("  port = 8080", "1"), "  port =1");
    assert_eq!(override_line("a=b=c", "x=y"), "a=x=y");
    assert_eq!(override_line("port", "1"), "port=1");
    assert_eq!(override_line("", ""), "=");
}

#[test]
fn requests_as_text() {
    let request = StorageData::new(StorageDataType::KvSet, vec![1, 20, 255]);
    assert_eq!(request.to_string(), "(KvSet,[1, 20, 255])");
    assert_eq!(format!("({:?},{:?})", request.data_type, request.value), request.to_string());
    let request = StorageData::new(StorageDataType::ClusterDeleteCluster, vec![]);
    assert_eq!(request.to_string(), "(ClusterDeleteCluster,[])");
    let request = StorageData::new(StorageDataType::KvDelete, vec![0]);
    assert_eq!(request.to_string(), "(KvDelete,[0])");
}

#[test]
fn kv_test() {
    let mut client = GrpcBrokerServices::new();

    let key = "mq".to_string();
    let value = "nezama".to_string();
    client.set(key.clone(), value.clone());

    let exist_reply = client.exist(&key);
    assert!(exist_reply);

    let get_reply = client.get(&key);
    assert_eq!(get_reply, value);

    client.delete(&key);

    let exist_reply = client.exist(&key);
    assert!(!exist_reply);
}
