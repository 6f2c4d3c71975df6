use matrix_commander_ng::json::{Fields, Json};
use matrix_commander_ng::release::newer;
use matrix_commander_ng::program::{
    contribute, get_bin_name, get_credentials_default_path, get_pkg_name, get_pkg_repository,
    get_prog_without_ext, get_store_default_path, get_store_depreciated_default_path, get_version,
    help, latest_version, manual, migrates_store, readme, usage, version, version_check,
    VersionWords, TIMEOUT_DEFAULT,
};
use matrix_commander_ng::Output;

const HELP: &str = "Options:\n  -d, --debug\n          Set debugging.  Details:: Long\n          \
                    text here.\n      --log-level <LEVEL>\n          Set the level.\nPS: End";

#[test]
fn test_usage() {
    assert_eq!(
        usage("Usage: prog [OPTIONS]", HELP),
        "Usage: prog [OPTIONS]\nOptions:\n  -d, --debug\n      --log-level <LEVEL>\n"
    );
    assert_eq!(usage("Usage", ""), "Usage\nOptions:\n");
}

#[test]
fn test_help() {
    let check = |text: &str, shown: &str| {
        let note = "Use --manual to get more detailed help information.\n";
        assert_eq!(help(text), format!("{shown}{note}"));
    };
    check(
        HELP,
        "Options:\n  -d, --debug\n          Set debugging.\n      --log-level <LEVEL>\n          \
         Set the level.\nPS: End",
    );
    // Without an end the details stay, and without details nothing is removed.
    check("a Details:: b\n", "a Details:: b\n");
    check("Set it.\n  -x\n", "Set it.\n  -x\n");
    check("a   Details:: b\nPS: c Details:: d\n  -e", "a\nPS: c\n  -e");
    check("aDetails:: b\nPS:", "aDetails:: b\nPS:");
    check("x Details:: Details:: y\n  -z", "x\n  -z");
    // Empty lines are taken out pair by pair.
    check("a\n\nb\n\n\nc", "a\nb\n\nc");
    check("", "");
}

#[test]
fn test_manual() {
    assert_eq!(manual(HELP), format!("{HELP}\n"));
}

#[test]
fn test_readme() {
    assert_eq!(readme(&Ok("# Title\n".to_string())), "# Title\n\n");
    assert_eq!(
        readme(&Err("no route".to_string())),
        "Error getting README.md from \
         \"https://raw.githubusercontent.com/longregen/matrix-commander-ng/main/README.md\". \
         Reported error no route.\n"
    );
}

#[test]
fn test_version() {
    let text = version(Output::Text, "prog", "1.0.0", "1.0.0", "https://repo");
    assert_eq!(
        text,
        "\n  _|      _|      _|_|_|                     prog\n  \
         _|_|  _|_|    _|             _~^~^~_       a rusty vision of a Matrix CLI client\n  \
         _|  _|  _|    _|         \\) /  o o  \\ (/   version 1.0.0\n  \
         _|      _|    _|           '_   -   _'     repo https://repo\n  \
         _|      _|      _|_|_|     / '-----' \\     please submit PRs to make the vision a reality\n\n"
    );
    assert_eq!(
        version(Output::Json, "prog", "1.0.0", "colored", "https://repo"),
        "{\"program\": \"prog\", \"version\": \"1.0.0\", \"repo\": \"https://repo\"}\n"
    );
    assert_eq!(
        version(Output::Json, "a\"b\\c\n", "1", "1", "r"),
        "{\"program\": \"a\\\"b\\\\c\\n\", \"version\": \"1\", \"repo\": \"r\"}\n"
    );
    assert_eq!(version(Output::JsonSpec, "prog", "1", "1", "r"), "");
}

fn words() -> VersionWords {
    VersionWords {
        available: "New version is available".to_string(),
        up_to_date: "Up-to-date".to_string(),
        could_not_get: "Could not get".to_string(),
    }
}

#[test]
fn test_version_check() {
    let check = |latest: Result<Option<String>, String>| {
        version_check("1.0.0", "matrix-commander-ng", "1.0.0", &latest, &words())
    };
    assert_eq!(
        check(Ok(Some("1.1.0".to_string()))),
        "Installed version: v1.0.0\nNew version is available on \
         https://crates.io/crates/matrix-commander-ng: 1.1.0\n"
    );
    let same = "Installed version: v1.0.0\nUp-to-date You already have the latest version.\n";
    assert_eq!(check(Ok(Some("1.0.0".to_string()))), same);
    assert_eq!(check(Ok(None)), same);
    // What is installed may be newer than what is published.
    assert_eq!(check(Ok(Some("0.9.12".to_string()))), same);
    assert_eq!(check(Ok(Some("1.0.0-rc.1".to_string()))), same);
    assert_eq!(
        check(Err("offline".to_string())),
        "Installed version: v1.0.0\nCould not get Error reported: offline.\n"
    );
}

#[test]
fn test_contribute() {
    assert_eq!(
        contribute("prog", "https://repo"),
        "\nprog is a maintained fork of matrix-commander-rs by 8go.\n\
         Contributions are welcome! Have a look at the repo \nhttps://repo.\n\
         Please open issues, submit pull requests, and help make \nprog better for everyone.\n"
    );
}

#[test]
fn the_latest_version_is_read() {
    let mut inner = Fields::new();
    inner.put_text("max_version", "2.0.0");
    let mut f = Fields::new();
    f.put("crate", inner.object());
    assert_eq!(latest_version(&f.object()), Some("2.0.0"));
    assert_eq!(latest_version(&Json::Null), None);
}

#[test]
fn facts_about_the_program() {
    assert_eq!(get_version(Some("1.2.3")), "1.2.3");
    assert_eq!(get_version(None), "unknown version");
    assert_eq!(get_pkg_name(None), "matrix-commander-ng");
    assert_eq!(get_bin_name(None), "matrix-commander-ng");
    assert_eq!(get_prog_without_ext(Some("prog")), "prog");
    assert_eq!(
        get_pkg_repository(None),
        "https://github.com/longregen/matrix-commander-ng"
    );
    assert_eq!(TIMEOUT_DEFAULT, 60);
}

#[test]
fn default_paths() {
    assert_eq!(get_credentials_default_path("/data"), "/data/credentials.json");
    assert_eq!(get_store_default_path("/data/"), "/data/store/");
    assert_eq!(get_store_depreciated_default_path("/data"), "/data/sledstore/");
    assert!(migrates_store("/s", "/s", false, true));
    assert!(!migrates_store("/s", "/s", true, true));
    assert!(!migrates_store("/s", "/s", false, false));
    assert!(!migrates_store("/t", "/s", false, true));
}

#[test]
fn versions_are_ordered() {
    let order = [
        "0.4.0", "0.5.0", "0.10.0", "1.0.0-alpha", "1.0.0-alpha.1", "1.0.0-alpha.beta",
        "1.0.0-beta", "1.0.0-beta.2", "1.0.0-beta.11", "1.0.0-rc.1", "1.0.0", "1.0.1", "1.1.0",
        "2.0.0",
    ];
    for (i, a) in order.iter().enumerate() {
        for (j, b) in order.iter().enumerate() {
            assert_eq!(newer(a, b), i > j, "{a} {b}");
        }
    }
    assert!(!newer("1.0.0+b", "1.0.0+a"));
    assert!(!newer("1.0.0", "1.0.0+a"));
}
