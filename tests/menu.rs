use tbf::config::{Cli, Commands};
use tbf::interface::{accepts_fix, playlist_to_fix, trim_newline};
use tbf::models::ReturnURL;

#[test]
fn selector_picks_modes() {
    assert!(matches!(Commands::from_selector("1".to_string()), Some(Commands::Exact { .. })));
    assert!(matches!(Commands::from_selector("+7".to_string()), Some(Commands::Fix { output: None, slow: false, .. })));
    assert!(matches!(Commands::from_selector("8".to_string()), Some(Commands::Update)));
    assert!(matches!(Commands::from_selector("u".to_string()), Some(Commands::Update)));
    assert!(Commands::from_selector("0".to_string()).is_none());
    assert!(Commands::from_selector("9".to_string()).is_none());
    assert!(Commands::from_selector("x".to_string()).is_none());
    assert!(Commands::from_selector("".to_string()).is_none());
    match Commands::from_selector("2".to_string()) {
        Some(Commands::Bruteforce { username, id, from, to }) => {
            assert!(username.is_empty() && from.is_empty() && to.is_empty());
            assert_eq!(id, 0);
        }
        _ => panic!("expected the bruteforce mode"),
    }
}

#[test]
fn mode_descriptions() {
    let update = Commands::Update;
    assert!(!update.show_description());
    assert_eq!(update.to_short_desc(), "Check for updates");
    assert_eq!(update.to_selector(), Some("u".to_string()));
    let clipforce = Commands::Clipforce { id: 1, start: 2, end: 3 };
    assert!(clipforce.show_description());
    assert_eq!(clipforce.to_short_desc(), "Clip bruteforce mode");
    assert_eq!(clipforce.to_selector(), None);
    let cli = Cli::default();
    assert!(!cli.simple && cli.command.is_none() && cli.cdnfile.is_none());
}

#[test]
fn trimming_newlines() {
    let mut a = "text\r\n".to_string();
    trim_newline(&mut a);
    assert_eq!(a, "text");
    let mut b = "text\n\n".to_string();
    trim_newline(&mut b);
    assert_eq!(b, "text\n");
    let mut c = "text\r".to_string();
    trim_newline(&mut c);
    assert_eq!(c, "text\r");
}

#[test]
fn offering_a_fix() {
    let muted = vec![ReturnURL { playlist: "p".to_string(), muted: true }];
    assert_eq!(playlist_to_fix(&muted), Some("p".to_string()));
    let clean = vec![ReturnURL { playlist: "p".to_string(), muted: false }];
    assert_eq!(playlist_to_fix(&clean), None);
    assert!(accepts_fix("Y"));
    assert!(accepts_fix(""));
    assert!(!accepts_fix("n"));
}
