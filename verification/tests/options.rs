use resolvo_rpm::fetch::FetchConfig;
use resolvo_rpm::{
    ClosureOptions, EnvironmentInstallOptions, GroupInstallOptions, LoadOptions, ResolveOptions,
};

#[test]
fn load_options_default_to_primary_only() {
    let o = LoadOptions::new();
    assert!(!o.load_filelists);
    assert!(!o.load_groups);
    assert!(!o.load_advisories);
    assert!(o.group_options.include_mandatory);
    assert!(o.group_options.include_default);
    assert!(!o.group_options.include_optional);
    assert!(o.environment_options.include_default_options);
    assert!(!o.environment_options.include_all_options);
}

#[test]
fn load_options_change_one_setting_each() {
    let o = LoadOptions::new().load_filelists(true);
    assert!(o.load_filelists && !o.load_groups && !o.load_advisories);
    let o = LoadOptions::new().load_groups(true);
    assert!(!o.load_filelists && o.load_groups && !o.load_advisories);
    let o = LoadOptions::new().load_advisories(true).load_groups(true).load_groups(false);
    assert!(!o.load_filelists && !o.load_groups && o.load_advisories);
    let o = LoadOptions::new()
        .group_options(GroupInstallOptions::new().include_optional(true))
        .environment_options(EnvironmentInstallOptions::new().include_all_options(true));
    assert!(o.group_options.include_optional && o.group_options.include_mandatory);
    assert!(o.environment_options.include_all_options);
    assert!(o.environment_options.include_default_options);
}

#[test]
fn group_options_change_one_setting_each() {
    let o = GroupInstallOptions::new().include_mandatory(false);
    assert!(!o.include_mandatory && o.include_default && !o.include_optional);
    let o = GroupInstallOptions::default().include_default(false);
    assert!(o.include_mandatory && !o.include_default && !o.include_optional);
}

#[test]
fn environment_options_change_one_setting_each() {
    let o = EnvironmentInstallOptions::new().include_default_options(false);
    assert!(!o.include_default_options && !o.include_all_options);
}

#[test]
fn resolve_options_default_to_recommends() {
    let o = ResolveOptions::new();
    assert!(o.enable_recommends && !o.enable_suggests);
    let o = o.enable_recommends(false).enable_suggests(true);
    assert!(!o.enable_recommends && o.enable_suggests);
}

#[test]
fn closure_options_default_to_everything() {
    let o = ClosureOptions::new();
    assert!(o.check_repos.is_empty() && !o.newest_only);
    let o = o.check_repos(vec![1]).newest_only(true);
    assert_eq!(o.check_repos, vec![1]);
    assert!(o.newest_only);
}

#[test]
fn fetch_config_default() {
    let c = FetchConfig::new();
    assert!(c.auth_token.is_none() && c.user_agent.is_none());
    assert!(c.tls_client_cert.is_none() && c.tls_client_key.is_none() && c.tls_ca_cert.is_none());
    assert!(c.verify_tls && !c.allow_env_var && !c.all);
}
