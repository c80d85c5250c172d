use firezone_headless_client::dns::{activate, change, deactivate, flush, quoted_servers, DnsCommand, FZ_MAGIC};

fn servers() -> Vec<String> {
    vec!["100.100.111.1".to_string(), "fd00:2021:1111:8000:100:100:111:0".to_string()]
}

#[test]
fn activate_points_interface_then_adds_marked_rule() {
    let cmds = activate(&servers(), 7);
    assert_eq!(
        cmds,
        vec![
            DnsCommand::SetInterfaceServers { iface: 7, servers: servers() },
            DnsCommand::AddRule {
                namespace: ".".to_string(),
                comment: "firezone-fd0020211111".to_string(),
                servers: servers(),
            },
        ]
    );
}

#[test]
fn deactivate_removes_marked_rules_only() {
    assert_eq!(deactivate(), vec![DnsCommand::RemoveRulesWithComment(FZ_MAGIC.to_string())]);
}

#[test]
fn change_is_deactivate_then_activate() {
    let mut expected = deactivate();
    expected.extend(activate(&servers(), 3));
    assert_eq!(change(&servers(), 3), expected);
}

#[test]
fn flush_only_clears_cache() {
    assert_eq!(flush(), vec![DnsCommand::FlushCache]);
}

#[test]
fn activate_with_no_servers() {
    let cmds = activate(&vec![], 1);
    assert_eq!(cmds.len(), 2);
    assert_eq!(cmds[0], DnsCommand::SetInterfaceServers { iface: 1, servers: vec![] });
}

#[test]
fn quoted_server_list() {
    assert_eq!(quoted_servers(&vec![]), "");
    assert_eq!(quoted_servers(&vec!["1.1.1.1".to_string()]), "\"1.1.1.1\"");
    assert_eq!(
        quoted_servers(&vec!["1.1.1.1".to_string(), "8.8.8.8".to_string()]),
        "\"1.1.1.1\",\"8.8.8.8\""
    );
}
