use giglog_devtools::cli::{Cli, Command};
use giglog_devtools::relay::verbose_setting;

#[test]
fn setup_flags_become_setup_options() {
    let cli = Cli {
        command: Command::Setup {
            non_interactive: true,
            skip_db: false,
            skip_migrate: true,
            skip_build: false,
            dry_run: true,
            release: false,
        },
    };
    let options = cli.command.setup_options().expect("setup options");
    assert!(options.non_interactive);
    assert!(!options.skip_db);
    assert!(options.skip_migrate);
    assert!(!options.skip_build);
    assert!(options.dry_run);
    assert!(!options.release);
    assert!(Command::Dev.setup_options().is_none());
    assert!(Command::DbViewer.setup_options().is_none());
}

#[test]
fn verbose_relay_output_is_on_unless_turned_off() {
    assert!(verbose_setting(None));
    assert!(verbose_setting(Some("true")));
    assert!(verbose_setting(Some("whatever")));
    assert!(!verbose_setting(Some(" OFF ")));
    assert!(!verbose_setting(Some("No")));
    assert!(!verbose_setting(Some("0")));
    assert!(!verbose_setting(Some("false")));
    assert!(verbose_setting(Some("")));
}
