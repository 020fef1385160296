use omicron::authz::{
    is_plain_source, make_omicron_oso, make_oso, Action, Database, GeneratedInits,
    HandWrittenClasses, Init, OsoInitBuilder, OsoInitError, Perm, DATABASE,
};

const BASE: &str = "allow(_actor, \"read\", _resource: Database);";

#[test]
fn test_duplicate_polar_classes() {
    let oso_builder = OsoInitBuilder::new(BASE.to_string());
    let oso_builder = match oso_builder.register_class(Action::get_polar_class()) {
        Ok(oso_builder) => oso_builder,
        Err(error) => panic!("{}", error.to_text()),
    };
    match oso_builder.register_class(Action::get_polar_class()) {
        Ok(_) => panic!("failed to detect duplicate class"),
        Err(error) => {
            println!("{}", error.to_text());
            assert_eq!(error.to_text(), "Oso class was already registered: \"Action\"");
        }
    };
}

#[test]
fn a_class_can_be_registered_with_a_snippet() {
    let builder = OsoInitBuilder::new(BASE.to_string());
    let builder = match builder.register_class_with_snippet(Init {
        polar_snippet: "f(1);",
        polar_class: Database::get_polar_class(),
    }) {
        Ok(builder) => builder,
        Err(error) => panic!("{}", error.to_text()),
    };
    assert_eq!(builder.polar_config(), format!("{BASE}\nf(1);"));
    match builder.build() {
        Ok(init) => assert_eq!(init.class_names, vec!["Database".to_string()]),
        Err(error) => panic!("{}", error.to_text()),
    }
}

#[test]
fn the_policy_asks_actions_for_their_permissions() {
    let policy = "allow(_actor: String, action: Action, _resource: String) if \
                  action.to_perm() = \"modify\" and action = action;\n\
                  has_role(actor: String, role: String, database: Database) if \
                  database.has_role(actor, role);";
    let classes = vec![Action::get_polar_class(), Database::get_polar_class()];
    let init = match make_oso(policy.to_string(), classes, Vec::new()) {
        Ok(init) => init,
        Err(error) => panic!("{}", error.to_text()),
    };
    let allowed = |action: Action| {
        let action = oso::PolarValue::new_from_instance(action);
        init.oso.is_allowed("actor".to_string(), action, "resource".to_string()).unwrap()
    };
    assert!(allowed(Action::Modify));
    assert!(allowed(Action::Delete));
    assert!(!allowed(Action::Read));
    let database = oso::PolarValue::new_from_instance(DATABASE);
    let mut roles = init
        .oso
        .query_rule("has_role", ("actor".to_string(), "admin".to_string(), database))
        .unwrap();
    assert!(roles.next().is_none());
}

#[test]
fn a_configuration_that_is_not_polar_is_not_loaded() {
    let builder = OsoInitBuilder::new("allow(".to_string());
    match builder.build() {
        Ok(_) => panic!("loaded"),
        Err(error) => {
            assert!(matches!(error, OsoInitError::Loading { .. }));
            assert_eq!(error.to_text(), "loading Polar (Oso) config");
        }
    }
}

#[test]
fn classes_are_listed_in_the_order_of_their_names() {
    let made = make_oso(
        BASE.to_string(),
        vec![Database::get_polar_class(), class("Ab"), class("A"), Action::get_polar_class()],
        vec![Init { polar_snippet: "g(2);", polar_class: class("B") }],
    );
    match made {
        Ok(init) => assert_eq!(init.class_names, ["A", "Ab", "Action", "B", "Database"]),
        Err(error) => panic!("{}", error.to_text()),
    }
    let made = make_oso(
        BASE.to_string(),
        vec![Action::get_polar_class(), Database::get_polar_class()],
        vec![Init { polar_snippet: "g(2);", polar_class: Database::get_polar_class() }],
    );
    match made {
        Ok(_) => panic!("failed to detect duplicate class"),
        Err(error) => {
            assert_eq!(error.to_text(), "Oso class was already registered: \"Database\"")
        }
    }
}

fn class(name: &str) -> oso::Class {
    oso::ClassBuilder::<u8>::with_default().name(name).build()
}

fn init(name: &str) -> Init {
    Init { polar_snippet: "known(1);", polar_class: class(name) }
}

fn hand_written() -> HandWrittenClasses {
    HandWrittenClasses {
        any_actor: class("AnyActor"),
        authenticated_actor: class("AuthenticatedActor"),
        blueprint_config: class("BlueprintConfig"),
        dns_config: class("DnsConfig"),
        fleet: class("Fleet"),
        inventory: class("Inventory"),
        ip_pool_list: class("IpPoolList"),
        console_session_list: class("ConsoleSessionList"),
        device_auth_request_list: class("DeviceAuthRequestList"),
        silo_certificate_list: class("SiloCertificateList"),
        silo_identity_provider_list: class("SiloIdentityProviderList"),
        silo_user_list: class("SiloUserList"),
        update_trust_root_list: class("UpdateTrustRootList"),
        target_release_config: class("TargetReleaseConfig"),
        alert_class_list: class("AlertClassList"),
    }
}

fn generated() -> GeneratedInits {
    GeneratedInits {
        project: init("Project"),
        disk: init("Disk"),
        snapshot: init("Snapshot"),
        project_image: init("ProjectImage"),
        affinity_group: init("AffinityGroup"),
        anti_affinity_group: init("AntiAffinityGroup"),
        instance: init("Instance"),
        ip_pool: init("IpPool"),
        instance_network_interface: init("InstanceNetworkInterface"),
        vpc: init("Vpc"),
        vpc_router: init("VpcRouter"),
        internet_gateway: init("InternetGateway"),
        internet_gateway_ip_pool: init("InternetGatewayIpPool"),
        internet_gateway_ip_address: init("InternetGatewayIpAddress"),
        router_route: init("RouterRoute"),
        vpc_subnet: init("VpcSubnet"),
        floating_ip: init("FloatingIp"),
        image: init("Image"),
        silo_image: init("SiloImage"),
        address_lot: init("AddressLot"),
        blueprint: init("Blueprint"),
        loopback_address: init("LoopbackAddress"),
        certificate: init("Certificate"),
        console_session: init("ConsoleSession"),
        device_auth_request: init("DeviceAuthRequest"),
        device_access_token: init("DeviceAccessToken"),
        physical_disk: init("PhysicalDisk"),
        rack: init("Rack"),
        ssh_key: init("SshKey"),
        silo: init("Silo"),
        silo_user: init("SiloUser"),
        silo_group: init("SiloGroup"),
        support_bundle: init("SupportBundle"),
        identity_provider: init("IdentityProvider"),
        saml_identity_provider: init("SamlIdentityProvider"),
        sled: init("Sled"),
        tuf_repo: init("TufRepo"),
        tuf_artifact: init("TufArtifact"),
        tuf_trust_root: init("TufTrustRoot"),
        alert: init("Alert"),
        alert_receiver: init("AlertReceiver"),
        webhook_secret: init("WebhookSecret"),
        zpool: init("Zpool"),
        service: init("Service"),
        user_builtin: init("UserBuiltin"),
    }
}

#[test]
fn the_environment_of_the_control_plane() {
    let made = make_omicron_oso(BASE.to_string(), hand_written(), generated());
    let init = match made {
        Ok(init) => init,
        Err(error) => panic!("{}", error.to_text()),
    };
    assert_eq!(init.class_names.len(), 62);
    assert!(init.class_names.windows(2).all(|pair| pair[0] < pair[1]));
    assert!(init.class_names.contains(&"Action".to_string()));
    assert!(init.class_names.contains(&"Database".to_string()));
    let names = |part: &[&str]| part.iter().map(|n| n.to_string()).collect::<Vec<_>>();
    assert_eq!(init.class_names[..3], names(&["Action", "AddressLot", "AffinityGroup"]));
    assert_eq!(init.class_names[59..], names(&["VpcSubnet", "WebhookSecret", "Zpool"]));
    // The class of actions is the library's own.
    let mut inits = generated();
    inits.disk = init_of_actions();
    match make_omicron_oso(BASE.to_string(), hand_written(), inits) {
        Ok(_) => panic!("failed to detect duplicate class"),
        Err(error) => assert_eq!(error.to_text(), "Oso class was already registered: \"Action\""),
    }
}

fn init_of_actions() -> Init {
    Init { polar_snippet: "known(1);", polar_class: Action::get_polar_class() }
}

#[test]
fn names_that_polar_keeps_are_not_registered() {
    for name in ["Actor", "Resource", "Boolean", "Option", "oso::host::Class"] {
        match OsoInitBuilder::new(BASE.to_string()).register_class(class(name)) {
            Ok(_) => panic!("registered {name}"),
            Err(error) => assert!(matches!(error, OsoInitError::Registering { name: n, .. } if n == name)),
        }
    }
    let class = oso::ClassBuilder::<u8>::with_default().name("Mine").add_constant(1, "Actor").build();
    assert!(OsoInitBuilder::new(BASE.to_string()).register_class(class).is_err());
    let class = oso::ClassBuilder::<u8>::with_default().name("Mine").add_constant(1, "ONE").build();
    assert!(OsoInitBuilder::new(BASE.to_string()).register_class(class).is_ok());
}

#[test]
fn plain_configurations_are_told() {
    assert!(!is_plain_source("f(1);\n?= f(1);"));
    assert!(!is_plain_source("?="));
    assert!(!is_plain_source("# \u{e9}"));
    assert!(is_plain_source(BASE));
    assert!(is_plain_source("f(x?) if x == 1;"));
    assert!(is_plain_source("?\n="));
    assert!(is_plain_source(""));
}

#[test]
fn a_name_that_is_a_polar_constant_is_not_registered() {
    // The language has a built-in class of this name.
    let builder = OsoInitBuilder::new(BASE.to_string());
    let class = oso::ClassBuilder::<u8>::with_default().name("Integer").build();
    match builder.register_class(class) {
        Ok(_) => panic!("registered"),
        Err(error) => {
            assert!(matches!(error, OsoInitError::Registering { .. }));
            assert_eq!(error.to_text(), "registering Oso class \"Integer\"");
        }
    }
}

#[test]
fn actions_ask_for_permissions() {
    assert_eq!(Action::Query.to_perm(), "query");
    assert_eq!(Action::Read.to_perm(), "read");
    assert_eq!(Action::Modify.to_perm(), "modify");
    assert_eq!(Action::Delete.to_perm(), "modify");
    assert_eq!(Action::ListChildren.to_perm(), "list_children");
    assert_eq!(Action::CreateChild.to_perm(), "create_child");
    assert_eq!(Perm::from(&Action::Delete).as_str(), "modify");
}

#[test]
fn the_database_has_no_roles_of_its_own() {
    assert!(!DATABASE.has_role());
    assert_eq!(DATABASE.on_unauthorized("forbidden"), "forbidden");
}
