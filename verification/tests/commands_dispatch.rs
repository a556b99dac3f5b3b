use music_bot::commands::{
    usage_reply, ClearCommand, Command, CommandRegistry, CommandSpec, Dispatch, PingCommand,
    PlayCommand, PlayNextCommand, QueueCommand, RadioCommand, SkipCommand, SkipToCommand,
    SlowPingCommand, VolumeCommand,
};

fn registry() -> CommandRegistry {
    let mut r = CommandRegistry::new();
    r.register(PlayCommand.describe());
    r.register(PlayNextCommand.describe());
    r.register(ClearCommand.describe());
    r.register(QueueCommand.describe());
    r.register(SkipCommand.describe());
    r.register(SkipToCommand.describe());
    r.register(VolumeCommand.describe());
    r.register(RadioCommand.describe());
    r
}

fn run_slot(d: Dispatch) -> usize {
    match d {
        Dispatch::Run(i) => i,
        other => panic!("unexpected {:?}", other),
    }
}

#[test]
fn command_descriptions() {
    let p = PlayCommand.describe();
    assert_eq!(p.name, "play");
    assert_eq!(p.aliases, vec!["p"]);
    assert_eq!(p.min_args, 1);
    assert!(p.guild_only && p.voice_required);
    let q = QueueCommand.describe();
    assert!(!q.voice_required);
    assert_eq!(q.aliases, vec!["q", "cola"]);
    assert_eq!(VolumeCommand.describe().description, "Muestra o ajusta el volumen (0–100).");
    assert_eq!(PingCommand.describe().usage, "ping");
    assert_eq!(SlowPingCommand.describe().aliases, vec!["sp"]);
    assert_eq!(SkipToCommand.describe().usage, "skipto <posición>");
    let pn = PlayNextCommand.describe();
    assert!(!pn.guild_only && !pn.voice_required);
    assert_eq!(pn.min_args, 0);
    let sp = SlowPingCommand.describe();
    assert!(!sp.guild_only && !sp.voice_required);
}

#[test]
fn playnext_runs_its_own_checks() {
    let r = registry();
    let slot = run_slot(r.dispatch("pn", false, false, 0));
    assert_eq!(r.command(slot).name, "playnext");
}

#[test]
fn registered_in_order_last_wins_and_case_is_ignored() {
    let mut r = CommandRegistry::new();
    r.register(PingCommand.describe());
    r.register(SlowPingCommand.describe());
    r.register(PlayCommand.describe());
    r.register(CommandSpec::new("Eco", &["SP"], "C", "D", "eco"));
    assert_eq!(r.command(run_slot(r.dispatch("sp", true, true, 0))).name, "Eco");
    assert_eq!(r.command(run_slot(r.dispatch("ECO", true, true, 0))).name, "Eco");
    assert_eq!(r.command(run_slot(r.dispatch("p", true, true, 1))).name, "play");
    assert_eq!(r.command(run_slot(r.dispatch("SlowPing", true, true, 0))).name, "slowping");
    assert!(matches!(r.dispatch("nada", true, true, 0), Dispatch::Unknown));
    assert!(matches!(r.dispatch("nada", false, false, 0), Dispatch::Unknown));
}

#[test]
fn new_command_defaults() {
    let c = CommandSpec::new("x", &["y"], "C", "D", "U");
    assert!(c.guild_only);
    assert!(c.voice_required);
    assert_eq!(c.min_args, 0);
}

#[test]
fn name_and_aliases_reach_the_command() {
    let r = registry();
    assert_eq!(r.len(), 8);
    let slot = run_slot(r.dispatch("skip", true, true, 0));
    assert_eq!(r.command(slot).name, "skip");
    assert_eq!(run_slot(r.dispatch("s", true, true, 0)), slot);
    assert_eq!(run_slot(r.dispatch("SALTEAR", true, true, 0)), slot);
    assert_eq!(r.command(run_slot(r.dispatch("Mix", true, true, 1))).name, "radio");
}

#[test]
fn unknown_label_is_ignored() {
    assert!(matches!(registry().dispatch("dance", true, true, 0), Dispatch::Unknown));
}

#[test]
fn later_registration_takes_the_key() {
    let mut r = CommandRegistry::new();
    r.register(PingCommand.describe());
    r.register(PlayCommand.describe());
    let slot = run_slot(r.dispatch("p", true, true, 1));
    assert_eq!(r.command(slot).name, "play");
    assert_eq!(r.command(run_slot(r.dispatch("ping", true, true, 0))).name, "ping");
}

#[test]
fn checks_in_order() {
    let r = registry();
    match r.dispatch("play", false, false, 0) {
        Dispatch::Reply(m) => assert_eq!(m, "Este comando solo funciona en servidores."),
        other => panic!("unexpected {:?}", other),
    }
    match r.dispatch("play", true, false, 0) {
        Dispatch::Reply(m) => assert_eq!(m, "Debes estar en un canal de voz para usar esto."),
        other => panic!("unexpected {:?}", other),
    }
    match r.dispatch("play", true, true, 0) {
        Dispatch::Reply(m) => assert_eq!(m, "Usa: `play <búsqueda o URL>`"),
        other => panic!("unexpected {:?}", other),
    }
    assert!(matches!(r.dispatch("queue", true, false, 0), Dispatch::Run(_)));
}

#[test]
fn usage_text() {
    assert_eq!(usage_reply("volume [0-100]"), "Usa: `volume [0-100]`");
}
