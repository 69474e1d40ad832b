use har_analyzer::cli::{AnalysisArg, Cli, Command};
use har_analyzer::server::{NameServer, ResolverChoice, ServerError};

fn arg(dns: Option<&str>) -> AnalysisArg {
    AnalysisArg { har: "./har.har".to_string(), dns: dns.map(|d| d.to_string()), verbose: false }
}

#[test]
fn without_a_name_server_the_system_is_asked() {
    assert_eq!(arg(None).resolver(), Ok(ResolverChoice::System));
}

#[test]
fn a_name_server_is_read_from_the_arguments() {
    assert_eq!(
        arg(Some("9.9.9.9:53")).resolver(),
        Ok(ResolverChoice::Server(NameServer { ip: [9, 9, 9, 9], port: 53 }))
    );
    assert_eq!(
        arg(Some("1.1.1.1")).resolver(),
        Ok(ResolverChoice::Server(NameServer { ip: [1, 1, 1, 1], port: 53 }))
    );
}

#[test]
fn a_bad_name_server_fails_before_any_domain_is_looked_at() {
    assert_eq!(arg(Some("not-an-ip")).resolver(), Err(ServerError::Address));
    assert_eq!(arg(Some("9.9.9.9:port")).resolver(), Err(ServerError::Port));
}

#[test]
fn a_command_line_holds_its_command() {
    let cli = Cli { command: Command::Analysis(arg(Some("9.9.9.9"))), verbose: true };
    assert!(cli.verbose);
    match cli.command {
        Command::Analysis(a) => {
            assert_eq!(a.har, "./har.har");
            assert_eq!(a.dns, Some("9.9.9.9".to_string()));
            assert!(!a.verbose);
        }
    }
}
