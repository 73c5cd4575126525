use hlwinter::config::{Config, ConfigError, TMPFile};
use hlwinter::window::BlacklistedItems;

fn config(tmpfile: TMPFile) -> Config {
    Config {
        tmpfile,
        space_between_buttons: 0,
        maxwidth: 40,
        blacklist: BlacklistedItems { item: Vec::new() },
    }
}

#[test]
fn file_in_the_runtime_directory() {
    let c = config(TMPFile::InXdgRuntime);
    assert_eq!(c.tmpfile_name(Some("/run/user/1000")), Ok(String::from("/run/user/1000/winterreise")));
    assert_eq!(c.tmpfile_name(Some("")), Ok(String::from("/winterreise")));
    assert_eq!(c.tmpfile_name(None), Err(ConfigError::NoRuntimeDir));
}

#[test]
fn file_in_the_temporary_directory() {
    let c = config(TMPFile::InTmp);
    assert_eq!(c.tmpfile_name(Some("/run/user/1000")), Ok(String::from("/tmp/winterreise")));
    assert_eq!(c.tmpfile_name(None), Ok(String::from("/tmp/winterreise")));
}

#[test]
fn file_at_a_custom_path() {
    let c = config(TMPFile::Custom(String::from("/home/me/.cache/prev")));
    assert_eq!(c.tmpfile_name(Some("/run/user/1000")), Ok(String::from("/home/me/.cache/prev")));
    assert_eq!(c.tmpfile_name(None), Ok(String::from("/home/me/.cache/prev")));
}
