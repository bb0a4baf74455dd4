use makewiz::defaults;
use makewiz::defaults::Config;
use makewiz::user_config;
use makewiz::user_config::UserConfig;
use makewiz::user_config_manager;

#[test]
fn user_config_defaults() {
    let config = UserConfig::default();
    assert_eq!("g++", config.compiler_name);
    assert_eq!("main", config.executable_name);
}

#[test]
fn user_config_updating_config() {
    let created_config = UserConfig {
        compiler_name: String::from("created compiler name"),
        executable_name: String::from("created executable name"),
    };

    let config = created_config
        .update_config(user_config::Attribute::CompilerName(String::from("new compiler name")));

    let expected = UserConfig {
        compiler_name: String::from("new compiler name"),
        executable_name: String::from("created executable name"),
    };

    assert_eq!(expected, config);

    let config = config
        .update_config(user_config::Attribute::ExecutableName(String::from("new executable name")));

    let expected = UserConfig {
        compiler_name: String::from("new compiler name"),
        executable_name: String::from("new executable name"),
    };

    assert_eq!(expected, config);
}

#[test]
fn defaults_init_config_not_created() {
    let expected = Config::default();

    assert_eq!(expected, Config::init_config(None));
}

#[test]
fn defaults_init_config_created() {
    let created_config = Config {
        compiler_name: String::from("created compiler name"),
        executable_name: String::from("created executable name"),
    };

    let expected = Config {
        compiler_name: String::from("created compiler name"),
        executable_name: String::from("created executable name"),
    };

    assert_eq!(expected, Config::init_config(Some(created_config)));
}

#[test]
fn defaults_updating_config() {
    let created_config = Config {
        compiler_name: String::from("created compiler name"),
        executable_name: String::from("created executable name"),
    };

    let config = created_config
        .update_config(defaults::Attribute::CompilerName(String::from("new compiler name")));

    let expected = Config {
        compiler_name: String::from("new compiler name"),
        executable_name: String::from("created executable name"),
    };

    assert_eq!(expected, config);

    let config = config
        .update_config(defaults::Attribute::ExecutableName(String::from("new executable name")));

    let expected = Config {
        compiler_name: String::from("new compiler name"),
        executable_name: String::from("new executable name"),
    };

    assert_eq!(expected, config);
}

#[test]
fn user_config_manager_init_config_created() {
    let created_config = user_config_manager::UserConfig {
        compiler_name: String::from("created compiler name"),
        executable_name: String::from("created executable name"),
    };

    let expected = user_config_manager::UserConfig {
        compiler_name: String::from("created compiler name"),
        executable_name: String::from("created executable name"),
    };

    assert_eq!(expected, user_config_manager::UserConfig::init_config(Some(created_config)));
}

#[test]
fn user_config_manager_init_config_not_created() {
    let expected = user_config_manager::UserConfig::default();

    assert_eq!(expected, user_config_manager::UserConfig::init_config(None));
}

#[test]
fn user_config_manager_updating_config() {
    let created_config = user_config_manager::UserConfig {
        compiler_name: String::from("created compiler name"),
        executable_name: String::from("created executable name"),
    };

    let config = created_config.update_config(user_config_manager::Attribute::CompilerName(
        String::from("new compiler name"),
    ));

    let expected = user_config_manager::UserConfig {
        compiler_name: String::from("new compiler name"),
        executable_name: String::from("created executable name"),
    };

    assert_eq!(expected, config);

    let config = config.update_config(user_config_manager::Attribute::ExecutableName(
        String::from("new executable name"),
    ));

    let expected = user_config_manager::UserConfig {
        compiler_name: String::from("new compiler name"),
        executable_name: String::from("new executable name"),
    };

    assert_eq!(expected, config);
}
