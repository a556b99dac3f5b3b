//! The commands of the bot: their names, aliases and requirements, the
//! registry that finds a command from what a user typed, and the checks that
//! come before a command runs.

use vstd::prelude::*;
use crate::text::{lowercase, to_lowercase, views};

verus! {

/// What the registry knows of a command.
#[derive(Debug)]
pub struct CommandSpec {
    pub name: String,
    pub aliases: Vec<String>,
    pub category: String,
    pub description: String,
    pub usage: String,
    pub guild_only: bool,
    pub voice_required: bool,
    pub min_args: usize,
}

/// A command by its texts.
pub struct CommandView {
    pub name: Seq<char>,
    pub aliases: Seq<Seq<char>>,
    pub category: Seq<char>,
    pub description: Seq<char>,
    pub usage: Seq<char>,
    pub guild_only: bool,
    pub voice_required: bool,
    pub min_args: usize,
}

impl View for CommandSpec {
    type V = CommandView;

    open spec fn view(&self) -> CommandView {
        CommandView {
            name: self.name@,
            aliases: views(self.aliases@),
            category: self.category@,
            description: self.description@,
            usage: self.usage@,
            guild_only: self.guild_only,
            voice_required: self.voice_required,
            min_args: self.min_args,
        }
    }
}

/// A command view from its parts.
pub open spec fn command_view(
    name: Seq<char>,
    aliases: Seq<Seq<char>>,
    category: Seq<char>,
    description: Seq<char>,
    usage: Seq<char>,
    guild_only: bool,
    voice_required: bool,
    min_args: usize,
) -> CommandView {
    CommandView { name, aliases, category, description, usage, guild_only, voice_required, min_args }
}

/// The texts of a list of string slices.
pub open spec fn str_views(v: Seq<&str>) -> Seq<Seq<char>> {
    v.map_values(|s: &str| s@)
}

impl CommandSpec {
    /// A command that, unless told otherwise, works only in servers, needs
    /// the user in a voice channel, and takes no required argument.
    pub fn new(name: &str, aliases: &[&str], category: &str, description: &str, usage: &str) -> (c: Self)
        ensures
            c@ == command_view(
                name@,
                str_views(aliases@),
                category@,
                description@,
                usage@,
                true,
                true,
                0,
            ),
    {
        let mut a: Vec<String> = Vec::new();
        let mut i: usize = 0;
        while i < aliases.len()
            invariant
                i <= aliases@.len(),
                a@.len() == i,
                views(a@) == str_views(aliases@).take(i as int),
            decreases aliases@.len() - i,
        {
            let ghost before = a@;
            a.push(String::from_str(aliases[i]));
            assert forall|j: int| 0 <= j < i implies #[trigger] views(a@)[j] == views(before)[j] by {
                assert(a@[j] == before[j]);
            }
            i = i + 1;
            assert(views(a@) =~= str_views(aliases@).take(i as int));
        }
        assert(str_views(aliases@).take(i as int) =~= str_views(aliases@));
        CommandSpec {
            name: String::from_str(name),
            aliases: a,
            category: String::from_str(category),
            description: String::from_str(description),
            usage: String::from_str(usage),
            guild_only: true,
            voice_required: true,
            min_args: 0,
        }
    }

    /// The same command with `n` required arguments.
    pub fn with_min_args(self, n: usize) -> (c: Self)
        ensures
            c@ == command_view(
                self@.name,
                self@.aliases,
                self@.category,
                self@.description,
                self@.usage,
                self@.guild_only,
                self@.voice_required,
                n,
            ),
    {
        CommandSpec { min_args: n, ..self }
    }

    /// The same command, usable outside a voice channel.
    pub fn without_voice(self) -> (c: Self)
        ensures
            c@ == command_view(
                self@.name,
                self@.aliases,
                self@.category,
                self@.description,
                self@.usage,
                self@.guild_only,
                false,
                self@.min_args,
            ),
    {
        CommandSpec { voice_required: false, ..self }
    }

    /// The same command, usable outside servers too.
    pub fn without_guild(self) -> (c: Self)
        ensures
            c@ == command_view(
                self@.name,
                self@.aliases,
                self@.category,
                self@.description,
                self@.usage,
                false,
                self@.voice_required,
                self@.min_args,
            ),
    {
        CommandSpec { guild_only: false, ..self }
    }
}


/// A command the bot knows, described for the registry.
pub trait Command {
    /// The name, aliases, texts and requirements of the command.
    fn describe(&self) -> CommandSpec;
}

/// A quick check that the bot answers.
pub struct PingCommand;

impl Command for PingCommand {
    fn describe(&self) -> (c: CommandSpec)
        ensures
            c@ == command_view(
                "ping"@,
                seq!["p"@],
                "General"@,
                "Comprueba que el bot esta vivo."@,
                "ping"@,
                true,
                true,
                0,
            ),
    {
        let c = CommandSpec::new("ping", &["p"], "General", "Comprueba que el bot esta vivo.", "ping");
        assert(c@.aliases =~= seq!["p"@]);
        c
    }
}

/// The same check, run asynchronously; it asks for neither a server nor a
/// voice channel.
pub struct SlowPingCommand;

impl Command for SlowPingCommand {
    fn describe(&self) -> (c: CommandSpec)
        ensures
            c@ == command_view(
                "slowping"@,
                seq!["sp"@],
                "General"@,
                "Ping pero asincrono, para probar el flujo async."@,
                "slowping"@,
                false,
                false,
                0,
            ),
    {
        let c = CommandSpec::new("slowping", &["sp"], "General", "Ping pero asincrono, para probar el flujo async.", "slowping").without_guild().without_voice();
        assert(c@.aliases =~= seq!["sp"@]);
        c
    }
}

/// Empties the queue.
pub struct ClearCommand;

impl Command for ClearCommand {
    fn describe(&self) -> (c: CommandSpec)
        ensures
            c@ == command_view(
                "clear"@,
                seq!["cl"@],
                "Playback"@,
                "Limpia toda la cola de reproducción."@,
                "clear"@,
                true,
                true,
                0,
            ),
    {
        let c = CommandSpec::new("clear", &["cl"], "Playback", "Limpia toda la cola de reproducción.", "clear");
        assert(c@.aliases =~= seq!["cl"@]);
        c
    }
}

/// Finds a track and plays it, or queues it.
pub struct PlayCommand;

impl Command for PlayCommand {
    fn describe(&self) -> (c: CommandSpec)
        ensures
            c@ == command_view(
                "play"@,
                seq!["p"@],
                "Playback"@,
                "Busca y reproduce una canción."@,
                "play <búsqueda o URL>"@,
                true,
                true,
                1,
            ),
    {
        let c = CommandSpec::new("play", &["p"], "Playback", "Busca y reproduce una canción.", "play <búsqueda o URL>").with_min_args(1);
        assert(c@.aliases =~= seq!["p"@]);
        c
    }
}

/// Finds a track and puts it first in the queue. It runs asynchronously
/// and makes its own checks of server, voice channel and query, with
/// replies of its own, so the registry asks for none of them.
pub struct PlayNextCommand;

impl Command for PlayNextCommand {
    fn describe(&self) -> (c: CommandSpec)
        ensures
            c@ == command_view(
                "playnext"@,
                seq!["pn"@, "siguiente"@],
                "Música"@,
                "Añade una canción al principio de la cola (prioridad)."@,
                "playnext <búsqueda o URL>"@,
                false,
                false,
                0,
            ),
    {
        let c = CommandSpec::new("playnext", &["pn", "siguiente"], "Música", "Añade una canción al principio de la cola (prioridad).", "playnext <búsqueda o URL>").without_guild().without_voice();
        assert(c@.aliases =~= seq!["pn"@, "siguiente"@]);
        c
    }
}

/// Shows the queue; works outside a voice channel.
pub struct QueueCommand;

impl Command for QueueCommand {
    fn describe(&self) -> (c: CommandSpec)
        ensures
            c@ == command_view(
                "queue"@,
                seq!["q"@, "cola"@],
                "Música"@,
                "Muestra la cola de reproducción."@,
                "queue"@,
                true,
                false,
                0,
            ),
    {
        let c = CommandSpec::new("queue", &["q", "cola"], "Música", "Muestra la cola de reproducción.", "queue").without_voice();
        assert(c@.aliases =~= seq!["q"@, "cola"@]);
        c
    }
}

/// Starts a radio station from a seed track.
pub struct RadioCommand;

impl Command for RadioCommand {
    fn describe(&self) -> (c: CommandSpec)
        ensures
            c@ == command_view(
                "radio"@,
                seq!["mix"@, "r"@],
                "Música"@,
                "Inicia una radio automática basada en una canción o artista."@,
                "radio <búsqueda o URL>"@,
                true,
                true,
                1,
            ),
    {
        let c = CommandSpec::new("radio", &["mix", "r"], "Música", "Inicia una radio automática basada en una canción o artista.", "radio <búsqueda o URL>").with_min_args(1);
        assert(c@.aliases =~= seq!["mix"@, "r"@]);
        c
    }
}

/// Skips the track that plays.
pub struct SkipCommand;

impl Command for SkipCommand {
    fn describe(&self) -> (c: CommandSpec)
        ensures
            c@ == command_view(
                "skip"@,
                seq!["s"@, "saltear"@],
                "Música"@,
                "Salta la canción actual."@,
                "skip"@,
                true,
                true,
                0,
            ),
    {
        let c = CommandSpec::new("skip", &["s", "saltear"], "Música", "Salta la canción actual.", "skip");
        assert(c@.aliases =~= seq!["s"@, "saltear"@]);
        c
    }
}

/// Skips to a position of the queue.
pub struct SkipToCommand;

impl Command for SkipToCommand {
    fn describe(&self) -> (c: CommandSpec)
        ensures
            c@ == command_view(
                "skipto"@,
                seq!["st"@, "saltara"@],
                "Música"@,
                "Salta hasta la posición indicada de la cola."@,
                "skipto <posición>"@,
                true,
                true,
                1,
            ),
    {
        let c = CommandSpec::new("skipto", &["st", "saltara"], "Música", "Salta hasta la posición indicada de la cola.", "skipto <posición>").with_min_args(1);
        assert(c@.aliases =~= seq!["st"@, "saltara"@]);
        c
    }
}

/// Shows or sets the volume.
pub struct VolumeCommand;

impl Command for VolumeCommand {
    fn describe(&self) -> (c: CommandSpec)
        ensures
            c@ == command_view(
                "volume"@,
                seq!["vol"@, "v"@],
                "Música"@,
                "Muestra o ajusta el volumen (0–100)."@,
                "volume [0-100]"@,
                true,
                true,
                0,
            ),
    {
        let c = CommandSpec::new("volume", &["vol", "v"], "Música", "Muestra o ajusta el volumen (0–100).", "volume [0-100]");
        assert(c@.aliases =~= seq!["vol"@, "v"@]);
        c
    }
}


/// The command slot that `key` reaches: the slot of the last entry with
/// that key, as a map keeps the last value inserted for a key.
pub open spec fn lookup(entries: Seq<(Seq<char>, usize)>, key: Seq<char>) -> Option<usize>
    decreases entries.len(),
{
    if entries.len() == 0 {
        None
    } else if entries.last().0 == key {
        Some(entries.last().1)
    } else {
        lookup(entries.drop_last(), key)
    }
}

/// The keys under which a command is registered: its name and its aliases,
/// each lower-cased, each pointing at `slot`.
pub open spec fn command_keys(c: CommandView, slot: usize) -> Seq<(Seq<char>, usize)> {
    seq![(lowercase(c.name), slot)] + c.aliases.map_values(|a: Seq<char>| (lowercase(a), slot))
}

/// A registry by its contents: the key entries in insertion order and the
/// commands by slot.
pub struct RegistryView {
    pub entries: Seq<(Seq<char>, usize)>,
    pub commands: Seq<CommandView>,
}

/// Finds commands by name or alias, without regard to case.
#[derive(Debug)]
pub struct CommandRegistry {
    entries: Vec<(String, usize)>,
    commands: Vec<CommandSpec>,
}

/// The texts of key entries.
pub open spec fn entry_texts(v: Seq<(String, usize)>) -> Seq<(Seq<char>, usize)> {
    v.map_values(|e: (String, usize)| (e.0@, e.1))
}

/// The views of commands.
pub open spec fn command_views(v: Seq<CommandSpec>) -> Seq<CommandView> {
    v.map_values(|c: CommandSpec| c@)
}

impl View for CommandRegistry {
    type V = RegistryView;

    closed spec fn view(&self) -> RegistryView {
        RegistryView { entries: entry_texts(self.entries@), commands: command_views(self.commands@) }
    }
}

/// Every key points at a registered command.
pub open spec fn registry_wf(r: RegistryView) -> bool {
    forall|i: int| 0 <= i < r.entries.len() ==> #[trigger] r.entries[i].1 < r.commands.len()
}

/// What the dispatcher decides for a typed label.
#[derive(Debug)]
pub enum Dispatch {
    /// No command has that name or alias.
    Unknown,
    /// The command cannot run here; the user gets this reply.
    Reply(String),
    /// The command in this slot runs.
    Run(usize),
}

/// The reply that shows how a command is used.
pub open spec fn usage_text(usage: Seq<char>) -> Seq<char> {
    "Usa: `"@ + usage + "`"@
}

/// Shows how a command is used.
pub fn usage_reply(usage: &str) -> (r: String)
    ensures
        r@ == usage_text(usage@),
{
    let mut r = String::from_str("Usa: `");
    r.append(usage);
    r.append("`");
    r
}

/// What the dispatcher decides for `key` (already lower-cased): an unknown
/// key is ignored; a known command first checks the server, the voice
/// channel and the argument count, in that order.
pub open spec fn dispatch_outcome(
    r: RegistryView,
    key: Seq<char>,
    in_guild: bool,
    in_voice: bool,
    nargs: nat,
) -> Result<usize, Option<Seq<char>>> {
    match lookup(r.entries, key) {
        None => Err(None),
        Some(i) => {
            let c = r.commands[i as int];
            if c.guild_only && !in_guild {
                Err(Some("Este comando solo funciona en servidores."@))
            } else if c.voice_required && !in_voice {
                Err(Some("Debes estar en un canal de voz para usar esto."@))
            } else if nargs < c.min_args {
                Err(Some(usage_text(c.usage)))
            } else {
                Ok(i)
            }
        },
    }
}

/// The outcome that a [`Dispatch`] value stands for.
pub open spec fn dispatch_view(d: Dispatch) -> Result<usize, Option<Seq<char>>> {
    match d {
        Dispatch::Unknown => Err(None),
        Dispatch::Reply(m) => Err(Some(m@)),
        Dispatch::Run(i) => Ok(i),
    }
}

impl CommandRegistry {
    /// An empty registry.
    pub fn new() -> (r: Self)
        ensures
            r@.entries.len() == 0,
            r@.commands.len() == 0,
            r@.entries == registered_entries(r@.commands),
            registry_wf(r@),
    {
        let r = CommandRegistry { entries: Vec::new(), commands: Vec::new() };
        assert(r@.entries =~= Seq::<(Seq<char>, usize)>::empty());
        r
    }

    /// Adds a command in the next slot, under its lower-cased name and
    /// aliases; a key already taken now points at the new command.
    pub fn register(&mut self, cmd: CommandSpec)
        requires
            registry_wf(old(self)@),
            old(self)@.commands.len() < usize::MAX,
        ensures
            registry_wf(final(self)@),
            final(self)@.commands == old(self)@.commands.push(cmd@),
            final(self)@.entries == old(self)@.entries + command_keys(
                cmd@,
                old(self)@.commands.len() as usize,
            ),
            old(self)@.entries == registered_entries(old(self)@.commands) ==> final(self)@.entries
                == registered_entries(final(self)@.commands),
    {
        let idx = self.commands.len();
        let ghost e0 = self@.entries;
        let ghost c = cmd@;
        let ghost keys = command_keys(c, idx);
        let key = to_lowercase(cmd.name.as_str());
        let ghost before = self.entries@;
        self.entries.push((key, idx));
        assert forall|j: int| 0 <= j < before.len() implies #[trigger] entry_texts(self.entries@)[j] == entry_texts(before)[j] by {
            assert(self.entries@[j] == before[j]);
        }
        assert(entry_texts(self.entries@) =~= e0 + keys.take(1));
        let mut i: usize = 0;
        while i < cmd.aliases.len()
            invariant
                i <= cmd.aliases@.len(),
                c == cmd@,
                keys == command_keys(c, idx),
                keys.len() == cmd.aliases@.len() + 1,
                self.entries@.len() == e0.len() + i + 1,
                entry_texts(self.entries@) == e0 + keys.take(i + 1),
                self.commands@ == old(self).commands@,
                idx == old(self).commands@.len(),
            decreases cmd.aliases@.len() - i,
        {
            let k = to_lowercase(cmd.aliases[i].as_str());
            let ghost before = self.entries@;
            self.entries.push((k, idx));
            assert forall|j: int| 0 <= j < before.len() implies #[trigger] entry_texts(self.entries@)[j] == entry_texts(before)[j] by {
                assert(self.entries@[j] == before[j]);
            }
            i = i + 1;
            assert(keys[i as int] == (lowercase(cmd.aliases@[i - 1]@), idx));
            assert(entry_texts(self.entries@) =~= e0 + keys.take(i + 1));
        }
        assert(keys.take(i + 1) =~= keys);
        let ghost cs0 = self@.commands;
        self.commands.push(cmd);
        assert(command_views(self.commands@) =~= cs0.push(c));
        assert(self@.commands.drop_last() =~= cs0);
        assert forall|j: int| 0 <= j < self@.entries.len() implies #[trigger] self@.entries[j].1
            < self@.commands.len() by {
            if j >= e0.len() {
                assert(self@.entries[j] == keys[j - e0.len()]);
            }
        }
    }

    /// Finds the slot that `key` reaches.
    fn find(&self, key: &String) -> (r: Option<usize>)
        ensures
            r == lookup(self@.entries, key@),
    {
        let mut i: usize = self.entries.len();
        assert(self@.entries.take(i as int) =~= self@.entries);
        while i > 0
            invariant
                i <= self.entries@.len(),
                lookup(self@.entries, key@) == lookup(self@.entries.take(i as int), key@),
            decreases i,
        {
            let ghost t = self@.entries.take(i as int);
            assert(t.drop_last() =~= self@.entries.take(i - 1));
            if self.entries[i - 1].0 == *key {
                return Some(self.entries[i - 1].1);
            }
            i = i - 1;
        }
        None
    }

    /// Decides what to do with a typed label: the label is lower-cased and
    /// looked up; a known command then checks that it is used in a server,
    /// that the user is in a voice channel, and that enough arguments came.
    pub fn dispatch(&self, label: &str, in_guild: bool, in_voice: bool, nargs: usize) -> (d: Dispatch)
        requires
            registry_wf(self@),
        ensures
            dispatch_view(d) == dispatch_outcome(self@, lowercase(label@), in_guild, in_voice, nargs as nat),
    {
        let key = to_lowercase(label);
        match self.find(&key) {
            None => Dispatch::Unknown,
            Some(i) => {
                proof {
                    lemma_lookup_in_entries(self@.entries, key@);
                }
                let c = &self.commands[i];
                if c.guild_only && !in_guild {
                    Dispatch::Reply(String::from_str("Este comando solo funciona en servidores."))
                } else if c.voice_required && !in_voice {
                    Dispatch::Reply(String::from_str("Debes estar en un canal de voz para usar esto."))
                } else if nargs < c.min_args {
                    Dispatch::Reply(usage_reply(c.usage.as_str()))
                } else {
                    Dispatch::Run(i)
                }
            },
        }
    }

    /// The command in `slot`.
    pub fn command(&self, slot: usize) -> (c: &CommandSpec)
        requires
            slot < self@.commands.len(),
        ensures
            c@ == self@.commands[slot as int],
    {
        &self.commands[slot]
    }

    /// The number of registered commands.
    pub fn len(&self) -> (n: usize)
        ensures
            n == self@.commands.len(),
    {
        self.commands.len()
    }
}

/// A slot found by lookup is the slot of some entry.
pub proof fn lemma_lookup_in_entries(entries: Seq<(Seq<char>, usize)>, key: Seq<char>)
    ensures
        lookup(entries, key) matches Some(i) ==> exists|j: int| 0 <= j < entries.len() && #[trigger] entries[j].1 == i,
    decreases entries.len(),
{
    if entries.len() > 0 {
        if entries.last().0 != key {
            lemma_lookup_in_entries(entries.drop_last(), key);
            if let Some(i) = lookup(entries, key) {
                let j = choose|j: int| 0 <= j < entries.drop_last().len() && #[trigger] entries.drop_last()[j].1 == i;
                assert(entries[j].1 == i);
            }
        } else {
            assert(entries[entries.len() - 1].1 == entries.last().1);
        }
    }
}


proof fn lemma_lookup_append(a: Seq<(Seq<char>, usize)>, b: Seq<(Seq<char>, usize)>, key: Seq<char>)
    ensures
        lookup(a + b, key) == match lookup(b, key) {
            Some(i) => Some(i),
            None => lookup(a, key),
        },
    decreases b.len(),
{
    if b.len() == 0 {
        assert(a + b =~= a);
    } else {
        assert((a + b).drop_last() =~= a + b.drop_last());
        assert((a + b).last() == b.last());
        lemma_lookup_append(a, b.drop_last(), key);
    }
}

proof fn lemma_lookup_same_slot(b: Seq<(Seq<char>, usize)>, key: Seq<char>, slot: usize)
    requires
        forall|j: int| 0 <= j < b.len() ==> #[trigger] b[j].1 == slot,
    ensures
        (exists|j: int| 0 <= j < b.len() && #[trigger] b[j].0 == key) ==> lookup(b, key) == Some(
            slot,
        ),
        (forall|j: int| 0 <= j < b.len() ==> #[trigger] b[j].0 != key) ==> lookup(b, key) is None,
    decreases b.len(),
{
    if b.len() > 0 {
        let d = b.drop_last();
        assert forall|j: int| 0 <= j < d.len() implies #[trigger] d[j].1 == slot by {
            assert(d[j] == b[j]);
        }
        lemma_lookup_same_slot(d, key, slot);
        if b.last().0 != key {
            if exists|j: int| 0 <= j < b.len() && #[trigger] b[j].0 == key {
                let j = choose|j: int| 0 <= j < b.len() && #[trigger] b[j].0 == key;
                assert(j < b.len() - 1);
                assert(d[j].0 == key);
            }
            if forall|j: int| 0 <= j < b.len() ==> #[trigger] b[j].0 != key {
                assert forall|j: int| 0 <= j < d.len() implies #[trigger] d[j].0 != key by {
                    assert(d[j] == b[j]);
                }
            }
        } else {
            assert(b[b.len() - 1].0 == key);
        }
    }
}

/// Once a command is registered, its name and each of its aliases, lower-
/// cased, reach its slot, and every other key reaches what it reached
/// before.
pub proof fn law_register_then_lookup(r: RegistryView, c: CommandView, k: Seq<char>)
    ensures
        ({
            let slot = r.commands.len() as usize;
            let e = r.entries + command_keys(c, slot);
            &&& lookup(e, lowercase(c.name)) == Some(slot)
            &&& (forall|i: int| 0 <= i < c.aliases.len() ==> lookup(e, lowercase(#[trigger] c.aliases[i])) == Some(slot))
            &&& ((k != lowercase(c.name) && forall|i: int| 0 <= i < c.aliases.len() ==> k != lowercase(#[trigger] c.aliases[i]))
                ==> lookup(e, k) == lookup(r.entries, k))
        }),
{
    let slot = r.commands.len() as usize;
    let keys = command_keys(c, slot);
    assert forall|j: int| 0 <= j < keys.len() implies #[trigger] keys[j].1 == slot by {
        if j > 0 {
            assert(keys[j] == (lowercase(c.aliases[j - 1]), slot));
        }
    }
    lemma_lookup_append(r.entries, keys, lowercase(c.name));
    lemma_lookup_same_slot(keys, lowercase(c.name), slot);
    assert(keys[0].0 == lowercase(c.name));
    assert forall|i: int| 0 <= i < c.aliases.len() implies lookup(r.entries + keys, lowercase(#[trigger] c.aliases[i])) == Some(slot) by {
        lemma_lookup_append(r.entries, keys, lowercase(c.aliases[i]));
        lemma_lookup_same_slot(keys, lowercase(c.aliases[i]), slot);
        assert(keys[i + 1].0 == lowercase(c.aliases[i]));
    }
    if k != lowercase(c.name) && forall|i: int| 0 <= i < c.aliases.len() ==> k != lowercase(#[trigger] c.aliases[i]) {
        lemma_lookup_append(r.entries, keys, k);
        lemma_lookup_same_slot(keys, k, slot);
        assert forall|j: int| 0 <= j < keys.len() implies #[trigger] keys[j].0 != k by {
            if j > 0 {
                assert(keys[j] == (lowercase(c.aliases[j - 1]), slot));
            }
        }
    }
}

/// A registered command, typed by its name in a server from a voice channel
/// with enough arguments, runs.
pub proof fn law_registered_command_runs(r: RegistryView, c: CommandView, nargs: nat)
    requires
        nargs >= c.min_args,
        r.commands.len() < usize::MAX,
    ensures
        ({
            let slot = r.commands.len() as usize;
            let r2 = RegistryView {
                entries: r.entries + command_keys(c, slot),
                commands: r.commands.push(c),
            };
            dispatch_outcome(r2, lowercase(c.name), true, true, nargs) == Ok::<usize, Option<Seq<char>>>(slot)
        }),
{
    law_register_then_lookup(r, c, lowercase(c.name));
}

/// The key entries that registering `cs` in order, from an empty
/// registry, leaves: each command's keys point at its position.
pub open spec fn registered_entries(cs: Seq<CommandView>) -> Seq<(Seq<char>, usize)>
    decreases cs.len(),
{
    if cs.len() == 0 {
        Seq::empty()
    } else {
        registered_entries(cs.drop_last()) + command_keys(cs.last(), (cs.len() - 1) as usize)
    }
}

/// Whether `k` is the lower-cased name or one of the lower-cased aliases of
/// `c`.
pub open spec fn answers(c: CommandView, k: Seq<char>) -> bool {
    lowercase(c.name) == k || exists|i: int| 0 <= i < c.aliases.len() && lowercase(#[trigger] c.aliases[i]) == k
}

/// The position of the last command of `cs` that answers to `k`.
pub open spec fn last_answering(cs: Seq<CommandView>, k: Seq<char>) -> Option<usize>
    decreases cs.len(),
{
    if cs.len() == 0 {
        None
    } else if answers(cs.last(), k) {
        Some((cs.len() - 1) as usize)
    } else {
        last_answering(cs.drop_last(), k)
    }
}

proof fn lemma_last_answering(cs: Seq<CommandView>, k: Seq<char>)
    requires
        cs.len() <= usize::MAX,
    ensures
        match last_answering(cs, k) {
            Some(j) => j < cs.len() && answers(cs[j as int], k) && forall|m: int| j < m < cs.len() ==> !answers(#[trigger] cs[m], k),
            None => forall|m: int| 0 <= m < cs.len() ==> !answers(#[trigger] cs[m], k),
        },
    decreases cs.len(),
{
    if cs.len() > 0 {
        let d = cs.drop_last();
        lemma_last_answering(d, k);
        if !answers(cs.last(), k) {
            assert forall|m: int| 0 <= m < cs.len() - 1 implies #[trigger] cs[m] == d[m] by {}
            match last_answering(d, k) {
                Some(j) => {
                    assert(cs[j as int] == d[j as int]);
                    assert forall|m: int| j < m < cs.len() implies !answers(#[trigger] cs[m], k) by {
                        if m < cs.len() - 1 {
                            assert(cs[m] == d[m]);
                        }
                    }
                },
                None => {
                    assert forall|m: int| 0 <= m < cs.len() implies !answers(#[trigger] cs[m], k) by {
                        if m < cs.len() - 1 {
                            assert(cs[m] == d[m]);
                        }
                    }
                },
            }
        }
    }
}

/// A registry built by registering commands one after another: a key
/// reaches the last of them whose name or alias, lower-cased, it is, so a
/// later command wins a clash; a key that none answers to is unknown, and
/// the dispatcher ignores it whatever the context.
pub proof fn law_registered_sequence(cs: Seq<CommandView>, k: Seq<char>, in_guild: bool, in_voice: bool, nargs: nat)
    requires
        cs.len() <= usize::MAX,
    ensures
        lookup(registered_entries(cs), k) == last_answering(cs, k),
        match last_answering(cs, k) {
            Some(j) => j < cs.len() && answers(cs[j as int], k) && forall|m: int| j < m < cs.len() ==> !answers(#[trigger] cs[m], k),
            None => forall|m: int| 0 <= m < cs.len() ==> !answers(#[trigger] cs[m], k),
        },
        last_answering(cs, k) is None ==> dispatch_outcome(
            RegistryView { entries: registered_entries(cs), commands: cs },
            k,
            in_guild,
            in_voice,
            nargs,
        ) == Err::<usize, Option<Seq<char>>>(None),
    decreases cs.len(),
{
    lemma_last_answering(cs, k);
    if cs.len() > 0 {
        let d = cs.drop_last();
        let c = cs.last();
        law_registered_sequence(d, k, in_guild, in_voice, nargs);
        let r = RegistryView { entries: registered_entries(d), commands: d };
        law_register_then_lookup(r, c, k);
        assert((cs.len() - 1) as usize == r.commands.len() as usize);
        if answers(c, k) {
            if lowercase(c.name) != k {
                let i = choose|i: int| 0 <= i < c.aliases.len() && lowercase(#[trigger] c.aliases[i]) == k;
                assert(lowercase(c.aliases[i]) == k);
            }
        } else {
            assert forall|i: int| 0 <= i < c.aliases.len() implies k != lowercase(#[trigger] c.aliases[i]) by {}
        }
    }
}

/// What a typed key gets, for a key that reaches a command: the command
/// runs exactly when every requirement it has is met (a server, a voice
/// channel, enough arguments); a command for servers typed elsewhere gets
/// the server reply whatever else holds; one that needs a voice channel,
/// typed where it may run but outside a voice channel, gets the voice reply
/// whatever the number of arguments; one with too few arguments, typed
/// where it may run, gets its usage. A key that reaches no command gets no
/// answer.
pub proof fn law_dispatch_requirements(r: RegistryView, k: Seq<char>, in_guild: bool, in_voice: bool, nargs: nat)
    requires
        registry_wf(r),
    ensures
        lookup(r.entries, k) is None ==> dispatch_outcome(r, k, in_guild, in_voice, nargs) == Err::<
            usize,
            Option<Seq<char>>,
        >(None),
        lookup(r.entries, k) matches Some(i) ==> {
            let c = r.commands[i as int];
            let out = dispatch_outcome(r, k, in_guild, in_voice, nargs);
            &&& i < r.commands.len()
            &&& (out == Ok::<usize, Option<Seq<char>>>(i) <==> ((!c.guild_only || in_guild) && (!c.voice_required
                || in_voice) && nargs >= c.min_args))
            &&& (out is Ok ==> out == Ok::<usize, Option<Seq<char>>>(i))
            &&& (c.guild_only && !in_guild ==> out == Err::<usize, Option<Seq<char>>>(
                Some("Este comando solo funciona en servidores."@),
            ))
            &&& ((!c.guild_only || in_guild) && c.voice_required && !in_voice ==> out == Err::<
                usize,
                Option<Seq<char>>,
            >(Some("Debes estar en un canal de voz para usar esto."@)))
            &&& ((!c.guild_only || in_guild) && (!c.voice_required || in_voice) && nargs < c.min_args
                ==> out == Err::<usize, Option<Seq<char>>>(Some("Usa: `"@ + c.usage + "`"@)))
        },
{
    if let Some(i) = lookup(r.entries, k) {
        lemma_lookup_in_entries(r.entries, k);
        let j = choose|j: int| 0 <= j < r.entries.len() && #[trigger] r.entries[j].1 == i;
        assert(r.entries[j].1 < r.commands.len());
    }
}

} // verus!
