//! Connection settings of the data availability layer: environment files, addresses,
//! keys and namespaces.

use crate::config::CelestiaConfig;
use crate::hex::{from_hex, hex, hex_bytes, hex_digit, hex_text, law_hex_round_trip};
use crate::text::{
    chars_of, decimal, find_char, first_of, is_white_space, law_lines_end_at_line_feeds,
    lemma_first_of, lemma_first_of_unique, lines, push_decimal, same_text, string_of, trim_range, trimmed, trimmed_back, trimmed_front,
    Strip,
};
use crate::types::NamespaceId;
use vstd::prelude::*;
use vstd::string::*;

verus! {

/// The variable that a private key file may assign.
pub const PRIVATE_KEY_NAME: &'static str = "CELESTIA_PRIVATE_KEY_HEX";

/// A value as it is written behind an equals sign: without blanks at its ends, then
/// without double quotes there, then without single quotes there.
pub open spec fn unquoted(value: Seq<char>) -> Seq<char> {
    trimmed(trimmed(trimmed(value, Strip::WhiteSpace), Strip::Only('"')), Strip::Only('\''))
}

/// The name and value that a line assigns, if it has an equals sign: what stands before
/// the first one and what stands behind it.
pub open spec fn assignment(line: Seq<char>) -> Option<(Seq<char>, Seq<char>)> {
    let at = first_of(line, '=');
    if at < line.len() {
        Some((trimmed(line.take(at), Strip::WhiteSpace), unquoted(line.skip(at + 1))))
    } else {
        None
    }
}

/// What a line of an environment file sets: nothing where it is blank, begins with a
/// hash sign or assigns nothing.
pub open spec fn env_entry(line: Seq<char>) -> Option<(Seq<char>, Seq<char>)> {
    let inner = trimmed(line, Strip::WhiteSpace);
    if inner.len() == 0 || inner[0] == '#' {
        None
    } else {
        assignment(inner)
    }
}

/// What lines of an environment file set, one after the other: a later line replaces an
/// earlier one with the same name.
pub open spec fn env_map(lines: Seq<Seq<char>>) -> Map<Seq<char>, Seq<char>>
    decreases lines.len(),
{
    if lines.len() == 0 {
        Map::empty()
    } else {
        let sooner = env_map(lines.drop_last());
        match env_entry(lines.last()) {
            Some((name, value)) => sooner.insert(name, value),
            None => sooner,
        }
    }
}

/// The settings of an environment file.
pub struct EnvFile {
    entries: Vec<(String, String)>,
}

/// The settings in a list, where later ones replace earlier ones.
spec fn entry_map(entries: Seq<(String, String)>) -> Map<Seq<char>, Seq<char>>
    decreases entries.len(),
{
    if entries.len() == 0 {
        Map::empty()
    } else {
        entry_map(entries.drop_last()).insert(entries.last().0@, entries.last().1@)
    }
}

impl View for EnvFile {
    type V = Map<Seq<char>, Seq<char>>;

    closed spec fn view(&self) -> Map<Seq<char>, Seq<char>> {
        entry_map(self.entries@)
    }
}

impl EnvFile {
    /// An environment file without settings.
    pub fn empty() -> (file: EnvFile)
        ensures
            file@ == Map::<Seq<char>, Seq<char>>::empty(),
    {
        EnvFile { entries: Vec::new() }
    }

    /// The value of a setting.
    pub fn get(&self, name: &str) -> (value: Option<&String>)
        ensures
            match value {
                Some(found) => self@.contains_key(name@) && self@[name@] == found@,
                None => !self@.contains_key(name@),
            },
    {
        let mut i: usize = self.entries.len();
        assert(self.entries@.take(i as int) =~= self.entries@);
        while i > 0
            invariant
                i <= self.entries@.len(),
                self@.contains_key(name@) == entry_map(self.entries@.take(i as int)).contains_key(
                    name@,
                ),
                self@.contains_key(name@) ==> self@[name@] == entry_map(
                    self.entries@.take(i as int),
                )[name@],
            decreases i,
        {
            let ghost prefix = self.entries@.take(i as int);
            i -= 1;
            let entry = &self.entries[i];
            proof {
                assert(prefix.last() == *entry);
                assert(prefix.drop_last() =~= self.entries@.take(i as int));
            }
            if same_text(entry.0.as_str(), name) {
                return Some(&entry.1);
            }
        }
        None
    }

    fn set(&mut self, name: String, value: String)
        ensures
            final(self)@ == old(self)@.insert(name@, value@),
    {
        self.entries.push((name, value));
        assert(self.entries@.drop_last() =~= old(self).entries@);
    }
}

/// The part of a list of characters that a value is without blanks and quotes.
fn unquote_range(chars: &Vec<char>, from: usize, to: usize) -> (kept: (usize, usize))
    requires
        from <= to <= chars@.len(),
    ensures
        from <= kept.0 <= kept.1 <= to,
        chars@.subrange(kept.0 as int, kept.1 as int) == unquoted(
            chars@.subrange(from as int, to as int),
        ),
{
    let (a, b) = trim_range(chars, from, to, Strip::WhiteSpace);
    let (a, b) = trim_range(chars, a, b, Strip::Only('"'));
    trim_range(chars, a, b, Strip::Only('\''))
}

/// The name and value that a part of a list of characters assigns.
fn assignment_in(chars: &Vec<char>, from: usize, to: usize) -> (found: Option<(String, String)>)
    requires
        from <= to <= chars@.len(),
    ensures
        match (found, assignment(chars@.subrange(from as int, to as int))) {
            (Some((name, value)), Some((n, v))) => name@ == n && value@ == v,
            (None, None) => true,
            _ => false,
        },
{
    let ghost line = chars@.subrange(from as int, to as int);
    let at = find_char(chars, from, to, '=');
    if at == to {
        return None;
    }
    let (a, b) = trim_range(chars, from, at, Strip::WhiteSpace);
    let (c, d) = unquote_range(chars, at + 1, to);
    proof {
        assert(line.take(at - from) =~= chars@.subrange(from as int, at as int));
        assert(line.skip(at - from + 1) =~= chars@.subrange(at + 1, to as int));
    }
    Some((string_of(chars, a, b), string_of(chars, c, d)))
}

/// Adding a line to others.
proof fn lemma_lines_from(s: Seq<char>, start: int)
    requires
        0 <= start < s.len(),
    ensures
        ({
            let tail = s.skip(start);
            let end = first_of(tail, '\n');
            &&& 0 <= end <= tail.len()
            &&& lines(tail) == if end < tail.len() {
                seq![tail.take(end)] + lines(s.skip(start + end + 1))
            } else {
                seq![tail]
            }
        }),
{
    let tail = s.skip(start);
    lemma_first_of(tail, '\n');
    let end = first_of(tail, '\n');
    if end < tail.len() {
        assert(tail.skip(end + 1) =~= s.skip(start + end + 1));
    }
}

/// Reads an environment file. Each line may set a name to a value; a carriage return at
/// the end of a line is a blank like any other.
pub fn parse_env_file(contents: &str) -> (file: EnvFile)
    ensures
        file@ == env_map(lines(contents@)),
{
    let chars = chars_of(contents);
    let mut file = EnvFile::empty();
    let mut start: usize = 0;
    let ghost all = lines(contents@);
    let ghost mut done: int = 0;
    proof {
        assert(contents@.skip(0) =~= contents@);
        assert(all.take(0) =~= Seq::<Seq<char>>::empty());
        assert(all.skip(0) =~= all);
    }
    while start < chars.len()
        invariant
            chars@ == contents@,
            start <= chars@.len(),
            0 <= done <= all.len(),
            all.skip(done) == lines(contents@.skip(start as int)),
            file@ == env_map(all.take(done)),
        decreases chars@.len() - start,
    {
        let ghost tail = contents@.skip(start as int);
        let end = find_char(&chars, start, chars.len(), '\n');
        proof {
            lemma_lines_from(contents@, start as int);
            assert(chars@.subrange(start as int, chars@.len() as int) =~= tail);
            assert(lines(tail).len() > 0);
            assert(all.skip(done).len() == all.len() - done);
            assert(all.skip(done)[0] == all[done]);
            assert(all[done] =~= chars@.subrange(start as int, end as int));
            assert(all.take(done + 1).drop_last() =~= all.take(done));
            assert(all.skip(done + 1) =~= all.skip(done).skip(1));
        }
        let (a, b) = trim_range(&chars, start, end, Strip::WhiteSpace);
        let ghost inner = chars@.subrange(a as int, b as int);
        assert(a < b ==> inner[0] == chars@[a as int]);
        if a < b && chars[a] != '#' {
            if let Some((name, value)) = assignment_in(&chars, a, b) {
                file.set(name, value);
            }
        }
        proof {
            done = done + 1;
        }
        if end < chars.len() {
            proof {
                assert(all.skip(done) =~= lines(contents@.skip(end + 1)));
            }
            start = end + 1;
        } else {
            proof {
                assert(contents@.skip(end as int) =~= Seq::<char>::empty());
                assert(all.skip(done) =~= Seq::<Seq<char>>::empty());
            }
            start = end;
        }
    }
    proof {
        assert(contents@.skip(start as int) =~= Seq::<char>::empty());
        assert(all.skip(done).len() == 0);
        assert(all.take(done) =~= all);
    }
    file
}

/// Reads an environment file, where there is one.
pub fn env_file_from(contents: Option<&String>) -> (file: EnvFile)
    ensures
        file@ == match contents {
            Some(text) => env_map(lines(text@)),
            None => Map::empty(),
        },
{
    match contents {
        Some(text) => parse_env_file(text.as_str()),
        None => EnvFile::empty(),
    }
}

/// The position of the first of some lines that assigns the private key variable, or
/// their number.
pub open spec fn key_line(lines: Seq<Seq<char>>) -> int
    decreases lines.len(),
{
    if lines.len() == 0 || (assignment(lines[0]) matches Some((name, _)) && name
        == PRIVATE_KEY_NAME@) {
        0
    } else {
        1 + key_line(lines.drop_first())
    }
}

/// The private key that a file holds: the value that its first assignment of the
/// private key variable gives, or else all of it but for blanks at its ends.
pub open spec fn key_in_file(contents: Seq<char>) -> Seq<char> {
    let inner = trimmed(contents, Strip::WhiteSpace);
    let all = lines(inner);
    let at = key_line(all);
    if at < all.len() {
        match assignment(all[at]) {
            Some((_, value)) if value.len() > 0 => value,
            _ => inner,
        }
    } else {
        inner
    }
}

/// The private key in the contents of a file.
pub fn private_key_hex_from_file(contents: &str) -> (key: String)
    ensures
        key@ == key_in_file(contents@),
{
    let whole = chars_of(contents);
    let (lo, hi) = trim_range(&whole, 0, whole.len(), Strip::WhiteSpace);
    assert(whole@.subrange(0, whole@.len() as int) =~= contents@);
    let trimmed_text = string_of(&whole, lo, hi);
    let chars = chars_of(trimmed_text.as_str());
    let ghost inner = trimmed(contents@, Strip::WhiteSpace);
    let ghost all = lines(inner);
    let ghost mut done: int = 0;
    let mut start: usize = 0;
    proof {
        assert(inner.skip(0) =~= inner);
        assert(all.skip(0) =~= all);
    }
    while start < chars.len()
        invariant
            chars@ == inner,
            trimmed_text@ == inner,
            inner == trimmed(contents@, Strip::WhiteSpace),
            all == lines(inner),
            start <= chars@.len(),
            0 <= done <= all.len(),
            all.skip(done) == lines(inner.skip(start as int)),
            key_line(all) == done + key_line(all.skip(done)),
        decreases chars@.len() - start,
    {
        let ghost tail = inner.skip(start as int);
        let end = find_char(&chars, start, chars.len(), '\n');
        proof {
            lemma_lines_from(inner, start as int);
            assert(chars@.subrange(start as int, chars@.len() as int) =~= tail);
            assert(lines(tail).len() > 0);
            assert(all.skip(done).len() == all.len() - done);
            assert(all.skip(done)[0] == all[done]);
            assert(all[done] =~= chars@.subrange(start as int, end as int));
            assert(all.skip(done).drop_first() =~= all.skip(done + 1));
        }
        if let Some((name, value)) = assignment_in(&chars, start, end) {
            if same_text(name.as_str(), PRIVATE_KEY_NAME) {
                if value.as_str().unicode_len() > 0 {
                    return value;
                }
                return trimmed_text;
            }
        }
        proof {
            done = done + 1;
        }
        if end < chars.len() {
            assert(all.skip(done) =~= lines(inner.skip(end + 1)));
            start = end + 1;
        } else {
            proof {
                assert(inner.skip(end as int) =~= Seq::<char>::empty());
                assert(all.skip(done) =~= Seq::<Seq<char>>::empty());
            }
            start = end;
        }
    }
    proof {
        assert(inner.skip(start as int) =~= Seq::<char>::empty());
        assert(all.skip(done).len() == all.len() - done);
    }
    trimmed_text
}

/// A text, where there is one and it is not empty.
pub open spec fn nonempty(text: Option<Seq<char>>) -> Option<Seq<char>> {
    match text {
        Some(chars) if chars.len() > 0 => Some(chars),
        _ => None,
    }
}

/// The view of an optional string.
pub open spec fn text_of(text: Option<&String>) -> Option<Seq<char>> {
    match text {
        Some(string) => Some(string@),
        None => None,
    }
}

/// The view of an optional string that is held.
pub open spec fn held_text(text: Option<String>) -> Option<Seq<char>> {
    match text {
        Some(string) => Some(string@),
        None => None,
    }
}

/// A setting in a map of settings.
pub open spec fn setting(file: Map<Seq<char>, Seq<char>>, name: Seq<char>) -> Option<Seq<char>> {
    if file.contains_key(name) {
        Some(file[name])
    } else {
        None
    }
}

/// The value of a variable: that of the process, or else that of the environment file,
/// where empty values do not count.
pub open spec fn env_lookup(
    process: Option<Seq<char>>,
    file: Map<Seq<char>, Seq<char>>,
    name: Seq<char>,
) -> Option<Seq<char>> {
    match nonempty(process) {
        Some(value) => Some(value),
        None => nonempty(setting(file, name)),
    }
}

/// Whether an optional string is an optional text.
pub open spec fn same_option(found: Option<String>, expected: Option<Seq<char>>) -> bool {
    match (found, expected) {
        (Some(string), Some(text)) => string@ == text,
        (None, None) => true,
        _ => false,
    }
}

/// The value of a variable, given what the process has for it.
pub fn env_value(name: &str, process: Option<&String>, env_file: &EnvFile) -> (value: Option<
    String,
>)
    ensures
        same_option(value, env_lookup(text_of(process), env_file@, name@)),
{
    if let Some(text) = process {
        if text.as_str().unicode_len() > 0 {
            return Some(text.clone());
        }
    }
    if let Some(text) = env_file.get(name) {
        if text.as_str().unicode_len() > 0 {
            return Some(text.clone());
        }
    }
    None
}

/// A configured address: the one written in the settings unless it is empty, or else the
/// value of the variable that the settings name.
pub open spec fn configured(
    inline: Option<Seq<char>>,
    env_name: Option<Seq<char>>,
    process: Option<Seq<char>>,
    file: Map<Seq<char>, Seq<char>>,
) -> Option<Seq<char>> {
    match nonempty(inline) {
        Some(value) => Some(value),
        None => match env_name {
            Some(name) => env_lookup(process, file, name),
            None => None,
        },
    }
}

/// A configured address, given what the process has for the variable that the settings
/// name; nothing when neither gives one.
pub fn find_config_value(
    inline: Option<&String>,
    env_name: Option<&String>,
    process: Option<&String>,
    env_file: &EnvFile,
) -> (value: Option<String>)
    ensures
        same_option(
            value,
            configured(text_of(inline), text_of(env_name), text_of(process), env_file@),
        ),
{
    if let Some(text) = inline {
        if text.as_str().unicode_len() > 0 {
            return Some(text.clone());
        }
    }
    match env_name {
        Some(name) => env_value(name.as_str(), process, env_file),
        None => None,
    }
}

/// What is said when an address is not configured.
pub open spec fn unset_text(label: Seq<char>) -> Seq<char> {
    "set "@ + label + " or its configured env var"@
}

/// A configured address, or what is said when there is none.
pub fn try_celestia_config_value(
    inline: Option<&String>,
    env_name: Option<&String>,
    process: Option<&String>,
    env_file: &EnvFile,
    label: &str,
) -> (value: Result<String, String>)
    ensures
        match configured(text_of(inline), text_of(env_name), text_of(process), env_file@) {
            Some(text) => value matches Ok(found) && found@ == text,
            None => value matches Err(said) && said@ == unset_text(label@),
        },
{
    match find_config_value(inline, env_name, process, env_file) {
        Some(value) => Ok(value),
        None => {
            let mut said = "set ".to_owned();
            said.append(label);
            said.append(" or its configured env var");
            Err(said)
        },
    }
}

/// A configured address.
pub fn celestia_config_value(
    inline: Option<&String>,
    env_name: Option<&String>,
    process: Option<&String>,
    env_file: &EnvFile,
) -> (value: String)
    requires
        configured(text_of(inline), text_of(env_name), text_of(process), env_file@) is Some,
    ensures
        configured(text_of(inline), text_of(env_name), text_of(process), env_file@) == Some(value@),
{
    find_config_value(inline, env_name, process, env_file).unwrap()
}

/// The configured private key: the one written in the settings, also when it is empty; or
/// else the one in the key file, where one is set and could be read; or else the value
/// of the variable that the settings name.
pub open spec fn configured_key(
    config: CelestiaConfig,
    key_file: Option<Seq<char>>,
    process: Option<Seq<char>>,
    file: Map<Seq<char>, Seq<char>>,
) -> Option<Seq<char>> {
    match (config.private_key_hex, config.private_key_file, key_file, config.private_key_env) {
        (Some(key), _, _, _) => Some(key@),
        (None, Some(_), Some(contents), _) => Some(key_in_file(contents)),
        (None, _, _, Some(name)) => env_lookup(process, file, name@),
        (None, _, _, None) => None,
    }
}

/// The configured private key, given the contents of the key file where it could be read
/// and what the process has for the variable that the settings name.
pub fn find_private_key_hex(
    config: &CelestiaConfig,
    key_file: Option<&String>,
    process: Option<&String>,
    env_file: &EnvFile,
) -> (key: Option<String>)
    ensures
        same_option(key, configured_key(*config, text_of(key_file), text_of(process), env_file@)),
{
    if let Some(key) = &config.private_key_hex {
        return Some(key.clone());
    }
    if config.private_key_file.is_some() {
        if let Some(contents) = key_file {
            return Some(private_key_hex_from_file(contents.as_str()));
        }
    }
    match &config.private_key_env {
        Some(name) => env_value(name.as_str(), process, env_file),
        None => None,
    }
}

/// The configured private key.
pub fn private_key_hex(
    config: &CelestiaConfig,
    key_file: Option<&String>,
    process: Option<&String>,
    env_file: &EnvFile,
) -> (key: String)
    requires
        configured_key(*config, text_of(key_file), text_of(process), env_file@) is Some,
    ensures
        configured_key(*config, text_of(key_file), text_of(process), env_file@) == Some(key@),
{
    find_private_key_hex(config, key_file, process, env_file).unwrap()
}

/// What the process has for the variables that the settings name.
pub struct ProcessEnv {
    pub rpc_url: Option<String>,
    pub grpc_url: Option<String>,
    pub private_key: Option<String>,
}

/// What a sequencer needs to reach the data availability layer.
pub struct Endpoints {
    pub rpc_url: String,
    pub grpc_url: String,
    pub private_key_hex: String,
}

/// The configured RPC address.
pub open spec fn configured_rpc(
    config: CelestiaConfig,
    process: ProcessEnv,
    file: Map<Seq<char>, Seq<char>>,
) -> Option<Seq<char>> {
    configured(
        held_text(config.rpc_url),
        held_text(config.rpc_url_env),
        held_text(process.rpc_url),
        file,
    )
}

/// The configured gRPC address.
pub open spec fn configured_grpc(
    config: CelestiaConfig,
    process: ProcessEnv,
    file: Map<Seq<char>, Seq<char>>,
) -> Option<Seq<char>> {
    configured(
        held_text(config.grpc_url),
        held_text(config.grpc_url_env),
        held_text(process.grpc_url),
        file,
    )
}

/// The address that a replica reads from, which must be configured.
pub fn read_only_endpoint(config: &CelestiaConfig, process: &ProcessEnv, env_file: &EnvFile) -> (url:
    String)
    requires
        configured_rpc(*config, *process, env_file@) is Some,
    ensures
        configured_rpc(*config, *process, env_file@) == Some(url@),
{
    try_read_only_endpoint(config, process, env_file).unwrap()
}

/// The address that a replica reads from, or what is said when none is configured.
pub fn try_read_only_endpoint(config: &CelestiaConfig, process: &ProcessEnv, env_file: &EnvFile) -> (url:
    Result<String, String>)
    ensures
        match configured_rpc(*config, *process, env_file@) {
            Some(rpc) => url matches Ok(found) && found@ == rpc,
            None => url matches Err(said) && said@ == unset_text("celestia.rpc_url"@),
        },
{
    try_celestia_config_value(
        config.rpc_url.as_ref(),
        config.rpc_url_env.as_ref(),
        process.rpc_url.as_ref(),
        env_file,
        "celestia.rpc_url",
    )
}

/// What is said when no private key is configured.
pub const NO_PRIVATE_KEY: &'static str =
    "set celestia.private_key_hex, celestia.private_key_file, or CELESTIA_PRIVATE_KEY_HEX";

/// What a sequencer needs to reach the data availability layer, all of which must be
/// configured.
pub fn endpoints(
    config: &CelestiaConfig,
    key_file: Option<&String>,
    process: &ProcessEnv,
    env_file: &EnvFile,
) -> (found: Endpoints)
    requires
        configured_rpc(*config, *process, env_file@) is Some,
        configured_grpc(*config, *process, env_file@) is Some,
        configured_key(
            *config,
            text_of(key_file),
            held_text(process.private_key),
            env_file@,
        ) is Some,
    ensures
        configured_rpc(*config, *process, env_file@) == Some(found.rpc_url@),
        configured_grpc(*config, *process, env_file@) == Some(found.grpc_url@),
        configured_key(*config, text_of(key_file), held_text(process.private_key), env_file@)
            == Some(found.private_key_hex@),
{
    try_endpoints(config, key_file, process, env_file).unwrap()
}

/// What a sequencer needs to reach the data availability layer, or what is said of the
/// first thing that is not configured: the RPC address, the gRPC address, the key.
pub fn try_endpoints(
    config: &CelestiaConfig,
    key_file: Option<&String>,
    process: &ProcessEnv,
    env_file: &EnvFile,
) -> (found: Result<Endpoints, String>)
    ensures
        match (
            configured_rpc(*config, *process, env_file@),
            configured_grpc(*config, *process, env_file@),
            configured_key(
                *config,
                text_of(key_file),
                held_text(process.private_key),
                env_file@,
            ),
        ) {
            (Some(rpc), Some(grpc), Some(key)) => {
                &&& found matches Ok(all)
                &&& all.rpc_url@ == rpc
                &&& all.grpc_url@ == grpc
                &&& all.private_key_hex@ == key
            },
            (None, _, _) => found matches Err(said) && said@ == unset_text("celestia.rpc_url"@),
            (_, None, _) => found matches Err(said) && said@ == unset_text("celestia.grpc_url"@),
            (_, _, None) => found matches Err(said) && said@ == NO_PRIVATE_KEY@,
        },
{
    let rpc_url = match try_read_only_endpoint(config, process, env_file) {
        Ok(url) => url,
        Err(said) => {
            return Err(said);
        },
    };
    let grpc_url = match try_celestia_config_value(
        config.grpc_url.as_ref(),
        config.grpc_url_env.as_ref(),
        process.grpc_url.as_ref(),
        env_file,
        "celestia.grpc_url",
    ) {
        Ok(url) => url,
        Err(said) => {
            return Err(said);
        },
    };
    match find_private_key_hex(config, key_file, process.private_key.as_ref(), env_file) {
        Some(private_key_hex) => Ok(Endpoints { rpc_url, grpc_url, private_key_hex }),
        None => Err(NO_PRIVATE_KEY.to_owned()),
    }
}

/// Why a text is no namespace.
#[derive(Clone, Copy, Debug, PartialEq, Eq)]
pub enum NamespaceError {
    /// It is not hexadecimal.
    NotHex,
    /// It has this many bytes.
    Length(usize),
}

impl NamespaceError {
    /// The reason in words.
    pub open spec fn text(self) -> Seq<char> {
        match self {
            NamespaceError::NotHex => "namespace must be hex"@,
            NamespaceError::Length(length) =>
                "namespace must be 10-byte suffix or full 29-byte namespace, got "@ + decimal(
                    length as nat,
                ) + " bytes"@,
        }
    }

    /// The reason in words.
    pub fn message(&self) -> (message: String)
        ensures
            message@ == self.text(),
    {
        match self {
            NamespaceError::NotHex => "namespace must be hex".to_owned(),
            NamespaceError::Length(length) => {
                let mut message =
                    "namespace must be 10-byte suffix or full 29-byte namespace, got ".to_owned();
                push_decimal(&mut message, *length as u64);
                message.append(" bytes");
                message
            },
        }
    }
}

/// The namespace that a hexadecimal text names: ten bytes are the end of one that begins
/// with zeros, and 29 bytes are a whole one.
pub open spec fn namespace_bytes(text: Seq<char>) -> Result<Seq<u8>, NamespaceError> {
    match hex_bytes(text) {
        None => Err(NamespaceError::NotHex),
        Some(bytes) => if bytes.len() == 10 {
            Ok(Seq::new(19, |i: int| 0u8) + bytes)
        } else if bytes.len() == 29 {
            Ok(bytes)
        } else {
            Err(NamespaceError::Length(bytes.len() as usize))
        },
    }
}

/// The namespace that a text names, or why it names none.
pub fn try_namespace(value: &str) -> (namespace: Result<NamespaceId, NamespaceError>)
    ensures
        match namespace_bytes(value@) {
            Ok(bytes) => namespace matches Ok(found) && found@ == bytes,
            Err(error) => namespace == Err::<NamespaceId, NamespaceError>(error),
        },
{
    let bytes = match from_hex(value) {
        Some(bytes) => bytes,
        None => {
            return Err(NamespaceError::NotHex);
        },
    };
    if bytes.len() != 10 && bytes.len() != 29 {
        return Err(NamespaceError::Length(bytes.len()));
    }
    let offset: usize = 29 - bytes.len();
    let mut namespace: NamespaceId = [0u8; 29];
    let mut i: usize = 0;
    while i < bytes.len()
        invariant
            i <= bytes@.len(),
            offset + bytes@.len() == 29,
            forall|j: int| 0 <= j < offset ==> namespace@[j] == 0,
            forall|j: int| offset <= j < offset + i ==> namespace@[j] == bytes@[j - offset],
        decreases bytes@.len() - i,
    {
        namespace[offset + i] = bytes[i];
        i += 1;
    }
    proof {
        if offset == 19 {
            assert(namespace@ =~= Seq::new(19, |i: int| 0u8) + bytes@);
        } else {
            assert(namespace@ =~= bytes@);
        }
    }
    Ok(namespace)
}

/// The namespace that a text names.
pub fn namespace(value: &str) -> (namespace: NamespaceId)
    requires
        namespace_bytes(value@) is Ok,
    ensures
        namespace_bytes(value@) == Ok::<Seq<u8>, NamespaceError>(namespace@),
{
    try_namespace(value).unwrap()
}

/// An environment file is read line by line: appending a line to a file sets what the
/// line sets, over what was set before.
pub proof fn law_later_lines_win(all: Seq<Seq<char>>, line: Seq<char>)
    ensures
        env_map(all.push(line)) == match env_entry(line) {
            Some((name, value)) => env_map(all).insert(name, value),
            None => env_map(all),
        },
{
    assert(all.push(line).drop_last() =~= all);
}

/// A namespace is named by its own bytes in hexadecimal, and one that begins with 19
/// zeros also by its last ten bytes.
pub proof fn law_namespace_round_trip(bytes: Seq<u8>)
    requires
        bytes.len() == 29,
    ensures
        namespace_bytes(hex_text(bytes)) == Ok::<Seq<u8>, NamespaceError>(bytes),
        (forall|i: int| 0 <= i < 19 ==> bytes[i] == 0) ==> namespace_bytes(
            hex_text(bytes.skip(19)),
        ) == Ok::<Seq<u8>, NamespaceError>(bytes),
{
    law_hex_round_trip(bytes);
    law_hex_round_trip(bytes.skip(19));
    if forall|i: int| 0 <= i < 19 ==> bytes[i] == 0 {
        assert(Seq::new(19, |i: int| 0u8) + bytes.skip(19) =~= bytes);
    }
}

/// The contents of a file that holds a generated private key: an assignment of the private
/// key variable on a line of its own.
pub open spec fn key_file_text(key: Seq<u8>) -> Seq<char> {
    PRIVATE_KEY_NAME@ + seq!['='] + hex_text(key) + seq!['\n']
}

/// The contents of a file that holds a generated private key.
pub fn key_file(private_key: &[u8]) -> (contents: String)
    ensures
        contents@ == key_file_text(private_key@),
{
    let mut contents = PRIVATE_KEY_NAME.to_owned();
    contents.push('=');
    let key = hex(private_key);
    contents.append(key.as_str());
    contents.push('\n');
    assert(contents@ =~= key_file_text(private_key@));
    contents
}

/// Trimming leaves a text as it is where neither end is to be trimmed.
proof fn lemma_nothing_to_trim(s: Seq<char>, strip: Strip)
    requires
        s.len() > 0 ==> !strip.takes(s[0]) && !strip.takes(s.last()),
    ensures
        trimmed(s, strip) == s,
{
}

/// A hexadecimal digit is neither blank nor a quote nor an equals sign.
proof fn lemma_hex_text_is_plain(bytes: Seq<u8>, i: int)
    requires
        0 <= i < hex_text(bytes).len(),
    ensures
        ({
            let c = hex_text(bytes)[i];
            &&& !is_white_space(c)
            &&& c != '"'
            &&& c != '\''
            &&& c != '='
            &&& c != '\n'
        }),
{
    let c = hex_text(bytes)[i];
    assert(c == hex_digit(bytes[i / 2] / 16) || c == hex_digit(bytes[i / 2] % 16));
}

/// What the assignment of a private key variable assigns.
proof fn lemma_key_assignment(key: Seq<u8>)
    ensures
        ({
            let line = PRIVATE_KEY_NAME@ + seq!['='] + hex_text(key);
            &&& assignment(line) == Some((PRIVATE_KEY_NAME@, hex_text(key)))
            &&& first_of(line, '\n') == line.len()
            &&& lines(line) == seq![line]
            &&& trimmed(line, Strip::WhiteSpace) == line
            &&& line[0] == 'C'
        }),
{
    let name = PRIVATE_KEY_NAME@;
    let text = hex_text(key);
    let line = name + seq!['='] + text;
    reveal_strlit("CELESTIA_PRIVATE_KEY_HEX");
    let n = name.len() as int;
    assert(n == 24);
    assert forall|i: int| 0 <= i < n implies name[i] != '=' && name[i] != '\n' && !is_white_space(
        name[i],
    ) by {}
    assert forall|i: int| 0 <= i < text.len() implies text[i] != '=' && text[i] != '\n' by {
        lemma_hex_text_is_plain(key, i);
    }
    lemma_first_of_unique(line, '=', n);
    lemma_first_of_unique(line, '\n', line.len() as int);
    assert(line.take(n) =~= name);
    assert(line.skip(n + 1) =~= text);
    lemma_nothing_to_trim(name, Strip::WhiteSpace);
    if text.len() > 0 {
        lemma_hex_text_is_plain(key, 0);
        lemma_hex_text_is_plain(key, text.len() - 1);
        assert(line.last() == text.last());
    }
    lemma_nothing_to_trim(text, Strip::WhiteSpace);
    lemma_nothing_to_trim(text, Strip::Only('"'));
    lemma_nothing_to_trim(text, Strip::Only('\''));
    lemma_nothing_to_trim(line, Strip::WhiteSpace);
}

/// A generated key can be used: its file, read as a key file, gives the key back in
/// hexadecimal.
pub proof fn law_generated_key_file_is_read_back(key: Seq<u8>)
    requires
        key.len() > 0,
    ensures
        key_in_file(key_file_text(key)) == hex_text(key),
{
    let line = PRIVATE_KEY_NAME@ + seq!['='] + hex_text(key);
    let contents = key_file_text(key);
    lemma_key_assignment(key);
    assert(contents =~= line.push('\n'));
    assert(trimmed(contents, Strip::WhiteSpace) == line) by {
        assert(contents[0] == line[0]);
        assert(contents.drop_last() =~= line);
    }
    assert(key_line(seq![line]) == 0);
}

/// A generated key can be used: its file, read as an environment file, sets the private
/// key variable to the key in hexadecimal, and nothing else.
pub proof fn law_generated_key_file_is_an_env_file(key: Seq<u8>)
    ensures
        env_map(lines(key_file_text(key))) == Map::<Seq<char>, Seq<char>>::empty().insert(
            PRIVATE_KEY_NAME@,
            hex_text(key),
        ),
{
    let line = PRIVATE_KEY_NAME@ + seq!['='] + hex_text(key);
    let contents = key_file_text(key);
    lemma_key_assignment(key);
    assert(contents =~= line.push('\n'));
    lemma_first_of(line, '\n');
    lemma_first_of_unique(contents, '\n', line.len() as int);
    assert(contents.take(line.len() as int) =~= line);
    assert(contents.skip(line.len() as int + 1) =~= Seq::<char>::empty());
    assert(lines(contents) == seq![line] + lines(Seq::<char>::empty()));
    assert(lines(Seq::<char>::empty()) =~= Seq::<Seq<char>>::empty());
    assert(lines(contents) =~= seq![line]);
    assert(seq![line].drop_last() =~= Seq::<Seq<char>>::empty());
    assert(env_map(Seq::<Seq<char>>::empty()) =~= Map::<Seq<char>, Seq<char>>::empty());
    assert(env_entry(line) == assignment(line));
}

/// A variable is looked up in the process first and in the environment file then; empty
/// values do not count.
pub proof fn law_process_variables_take_precedence(
    name: &str,
    process: Option<&String>,
    file: EnvFile,
    value: Option<String>,
    set: Option<&String>,
)
    requires
        call_ensures(env_value, (name, process, &file), value),
        call_ensures(EnvFile::get, (&file, name), set),
    ensures
        process is Some && process->0@.len() > 0 ==> (value matches Some(found) && found@
            == process->0@),
        (process is None || process->0@.len() == 0) && set is Some && set->0@.len() > 0 ==> (value
            matches Some(found) && found@ == set->0@),
        (process is None || process->0@.len() == 0) && (set is None || set->0@.len() == 0)
            ==> value is None,
        value matches Some(found) ==> found@.len() > 0,
{
}

/// What is written in the settings takes precedence over the variable that they name; there
/// is nothing where neither gives anything.
pub proof fn law_inline_settings_take_precedence(
    inline: Option<&String>,
    env_name: Option<&String>,
    process: Option<&String>,
    file: EnvFile,
    label: &str,
    value: Option<String>,
    tried: Result<String, String>,
    name: &str,
    variable: Option<String>,
)
    requires
        call_ensures(find_config_value, (inline, env_name, process, &file), value),
        call_ensures(
            try_celestia_config_value,
            (inline, env_name, process, &file, label),
            tried,
        ),
        env_name is Some ==> name@ == env_name->0@,
        call_ensures(env_value, (name, process, &file), variable),
    ensures
        inline is Some && inline->0@.len() > 0 ==> (value matches Some(found) && found@
            == inline->0@),
        (inline is None || inline->0@.len() == 0) && env_name is None ==> value is None,
        (inline is None || inline->0@.len() == 0) && env_name is Some ==> {
            &&& value is Some <==> variable is Some
            &&& value is Some ==> value->0@ == variable->0@
        },
        tried is Ok <==> value is Some,
        tried matches Ok(found) ==> found@ == value->0@,
{
}

/// The private key is the one written in the settings, also when that is empty; otherwise
/// the one of the key file, where one is set and was read; otherwise that of the variable.
pub proof fn law_private_key_settings_take_precedence(
    config: CelestiaConfig,
    key_file: Option<&String>,
    process: Option<&String>,
    file: EnvFile,
    key: Option<String>,
    contents: &str,
    in_file: String,
    name: &str,
    variable: Option<String>,
)
    requires
        call_ensures(find_private_key_hex, (&config, key_file, process, &file), key),
        key_file is Some ==> contents@ == key_file->0@,
        call_ensures(private_key_hex_from_file, (contents,), in_file),
        config.private_key_env is Some ==> name@ == config.private_key_env->0@,
        call_ensures(env_value, (name, process, &file), variable),
    ensures
        config.private_key_hex is Some ==> key is Some && key->0@ == config.private_key_hex->0@,
        config.private_key_hex is None && config.private_key_file is Some && key_file is Some
            ==> key is Some && key->0@ == in_file@,
        config.private_key_hex is None && (config.private_key_file is None || key_file is None)
            && config.private_key_env is Some ==> {
            &&& key is Some <==> variable is Some
            &&& key is Some ==> key->0@ == variable->0@
        },
        config.private_key_hex is None && (config.private_key_file is None || key_file is None)
            && config.private_key_env is None ==> key is None,
{
}

/// Each endpoint comes from its own settings and its own variable, and what is missing first
/// is named: the RPC address, then the gRPC address, then the key.
pub proof fn law_endpoints_come_from_their_own_settings(
    config: CelestiaConfig,
    key_file: Option<&String>,
    process: ProcessEnv,
    file: EnvFile,
    found: Result<Endpoints, String>,
    read_only: Result<String, String>,
    rpc: &str,
    rpc_variable: Option<String>,
    grpc: &str,
    grpc_variable: Option<String>,
)
    requires
        call_ensures(try_endpoints, (&config, key_file, &process, &file), found),
        call_ensures(try_read_only_endpoint, (&config, &process, &file), read_only),
        config.rpc_url_env is Some ==> rpc@ == config.rpc_url_env->0@,
        config.grpc_url_env is Some ==> grpc@ == config.grpc_url_env->0@,
        process.rpc_url is Some ==> call_ensures(
            env_value,
            (rpc, Some(&process.rpc_url->0), &file),
            rpc_variable,
        ),
        process.grpc_url is Some ==> call_ensures(
            env_value,
            (grpc, Some(&process.grpc_url->0), &file),
            grpc_variable,
        ),
    ensures
        found matches Ok(all) ==> {
            &&& read_only matches Ok(url) && url@ == all.rpc_url@
            &&& config.rpc_url is Some && config.rpc_url->0@.len() > 0 ==> all.rpc_url@
                == config.rpc_url->0@
            &&& config.grpc_url is Some && config.grpc_url->0@.len() > 0 ==> all.grpc_url@
                == config.grpc_url->0@
            &&& config.rpc_url is None && process.rpc_url is Some ==> rpc_variable is Some
                && all.rpc_url@ == rpc_variable->0@
            &&& config.grpc_url is None && process.grpc_url is Some ==> grpc_variable is Some
                && all.grpc_url@ == grpc_variable->0@
            &&& config.private_key_hex is Some ==> all.private_key_hex@
                == config.private_key_hex->0@
        },
        read_only is Err ==> found is Err && found->Err_0@ == read_only->Err_0@,
        read_only matches Err(said) ==> said@ == "set "@ + "celestia.rpc_url"@
            + " or its configured env var"@,
{
}

/// A line that assigns a plain value to a plain name sets it, also in quotes; a comment and a
/// line without an equals sign set nothing.
pub proof fn law_plain_lines_set_values(name: Seq<char>, value: Seq<char>, line: Seq<char>)
    requires
        name.len() > 0,
        name[0] != '#',
        forall|i: int| 0 <= i < name.len() ==> name[i] != '=' && !is_white_space(name[i]),
        forall|i: int|
            0 <= i < value.len() ==> !is_white_space(value[i]) && value[i] != '"' && value[i]
                != '\'',
        line.len() > 0 && !is_white_space(line[0]) && !is_white_space(line.last()),
    ensures
        env_entry(name + seq!['='] + value) == Some((name, value)),
        env_entry(name + seq!['=', '"'] + value + seq!['"']) == Some((name, value)),
        line[0] == '#' ==> env_entry(line) is None,
        (forall|i: int| 0 <= i < line.len() ==> line[i] != '=') ==> env_entry(line) is None,
        env_entry(Seq::empty()) is None,
{
    let n = name.len() as int;
    let plain = name + seq!['='] + value;
    let quoted = name + seq!['=', '"'] + value + seq!['"'];
    lemma_first_of_unique(plain, '=', n);
    lemma_first_of_unique(quoted, '=', n);
    assert(plain.take(n) =~= name);
    assert(quoted.take(n) =~= name);
    assert(plain.skip(n + 1) =~= value);
    let inner = seq!['"'] + value + seq!['"'];
    assert(quoted.skip(n + 1) =~= inner);
    assert(!is_white_space('=') && !is_white_space('"'));
    assert(plain.last() == if value.len() > 0 {
        value.last()
    } else {
        '='
    });
    assert(quoted.last() == '"');
    lemma_nothing_to_trim(plain, Strip::WhiteSpace);
    lemma_nothing_to_trim(quoted, Strip::WhiteSpace);
    lemma_nothing_to_trim(name, Strip::WhiteSpace);
    lemma_nothing_to_trim(value, Strip::WhiteSpace);
    lemma_nothing_to_trim(value, Strip::Only('"'));
    lemma_nothing_to_trim(value, Strip::Only('\''));
    lemma_nothing_to_trim(inner, Strip::WhiteSpace);
    let back = value + seq!['"'];
    assert(inner.drop_first() =~= back);
    assert(back.drop_last() =~= value);
    assert(trimmed_front(inner, Strip::Only('"')) == trimmed_front(back, Strip::Only('"')));
    if value.len() > 0 {
        assert(back[0] == value[0]);
        assert(trimmed_front(back, Strip::Only('"')) == back);
        assert(trimmed_back(back, Strip::Only('"')) == trimmed_back(value, Strip::Only('"')));
        assert(trimmed_back(value, Strip::Only('"')) == value);
    } else {
        assert(back =~= seq!['"']);
        assert(back.drop_first() =~= value);
        assert(trimmed_front(back, Strip::Only('"')) == trimmed_front(value, Strip::Only('"')));
    }
    assert(trimmed(inner, Strip::Only('"')) == value);
    lemma_nothing_to_trim(line, Strip::WhiteSpace);
    lemma_first_of(line, '=');
}

/// Reading an environment file: its last line that sets a name decides, and a name that no
/// line sets is not set; without a file nothing is.
pub proof fn law_environment_files_are_read(
    contents: &str,
    file: EnvFile,
    none: EnvFile,
    name: &str,
    found: Option<&String>,
    absent: Option<&String>,
    all: Seq<Seq<char>>,
    line: Seq<char>,
    value: Seq<char>,
)
    requires
        call_ensures(parse_env_file, (contents,), file),
        call_ensures(env_file_from, (None,), none),
        call_ensures(EnvFile::get, (&file, name), found),
        call_ensures(EnvFile::get, (&none, name), absent),
    ensures
        lines(contents@) == all.push(line) && env_entry(line) == Some((name@, value)) ==> (found
            matches Some(text) && text@ == value),
        contents@.len() == 0 ==> found is None,
        absent is None,
{
    law_later_lines_win(all, line);
    if contents@.len() == 0 {
        assert(lines(contents@) =~= Seq::<Seq<char>>::empty());
    }
}

/// A key file that assigns nothing is the key itself, but for blanks at its ends.
pub proof fn law_bare_key_files_are_keys(contents: &str, key: String, text: Seq<char>)
    requires
        call_ensures(private_key_hex_from_file, (contents,), key),
        text.len() > 0,
        contents@ == text || contents@ == text.push('\n'),
        forall|i: int|
            0 <= i < text.len() ==> text[i] != '=' && text[i] != '\n' && !is_white_space(text[i]),
    ensures
        key@ == text,
{
    lemma_nothing_to_trim(text, Strip::WhiteSpace);
    if contents@ == text.push('\n') {
        assert(contents@[0] == text[0]);
        assert(contents@.drop_last() =~= text);
        assert(trimmed(contents@, Strip::WhiteSpace) == text);
    }
    lemma_first_of_unique(text, '\n', text.len() as int);
    lemma_first_of_unique(text, '=', text.len() as int);
    assert(lines(text) =~= seq![text]);
    assert(seq![text].drop_first() =~= Seq::<Seq<char>>::empty());
    assert(assignment(text) is None);
    assert(key_line(Seq::<Seq<char>>::empty()) == 0);
    assert(key_line(seq![text]) == 1 + key_line(seq![text].drop_first()));
}

/// A namespace is read from 29 bytes in hexadecimal as they are, and from ten as the end of
/// one that begins with zeros; other texts are refused for what they are.
pub proof fn law_namespaces_are_read(
    text: &str,
    bytes: Seq<u8>,
    namespace: Result<NamespaceId, NamespaceError>,
    i: int,
)
    requires
        call_ensures(try_namespace, (text,), namespace),
        hex_bytes(text@) is Some ==> hex_bytes(text@) == Some(bytes),
    ensures
        hex_bytes(text@) is None <==> namespace == Err::<NamespaceId, NamespaceError>(
            NamespaceError::NotHex,
        ),
        hex_bytes(text@) is Some && bytes.len() == 29 ==> (namespace matches Ok(found) && found@
            == bytes),
        hex_bytes(text@) is Some && bytes.len() == 10 ==> (namespace matches Ok(found) && (0 <= i
            < 19 ==> found@[i] == 0) && (0 <= i < 10 ==> found@[19 + i] == bytes[i])),
        hex_bytes(text@) is Some && bytes.len() != 29 && bytes.len() != 10 ==> (namespace matches Err(
            NamespaceError::Length(length),
        ) && length == bytes.len() as usize),
{
}

/// What is written to a key file is read back from it, as a key file and as an environment
/// file.
pub proof fn law_written_key_files_are_read_back(
    key: &[u8],
    contents: String,
    text: &str,
    read: String,
    file: EnvFile,
    name: &str,
    found: Option<&String>,
)
    requires
        key@.len() > 0,
        call_ensures(key_file, (key,), contents),
        text@ == contents@,
        call_ensures(private_key_hex_from_file, (text,), read),
        call_ensures(parse_env_file, (text,), file),
        call_ensures(EnvFile::get, (&file, name), found),
        name@ == "CELESTIA_PRIVATE_KEY_HEX"@,
    ensures
        hex_bytes(read@) == Some(key@),
        found is Some && hex_bytes(found->0@) == Some(key@),
{
    law_generated_key_file_is_read_back(key@);
    law_generated_key_file_is_an_env_file(key@);
    law_hex_round_trip(key@);
}

/// What stands between two characters to trim is what trimming leaves.
proof fn lemma_wrapped(v: Seq<char>, front: char, back: char, strip: Strip)
    requires
        strip.takes(front),
        strip.takes(back),
        v.len() > 0 ==> !strip.takes(v[0]) && !strip.takes(v.last()),
    ensures
        trimmed(seq![front] + v + seq![back], strip) == v,
{
    let whole = seq![front] + v + seq![back];
    let rest = v + seq![back];
    assert(whole.drop_first() =~= rest);
    assert(rest.drop_last() =~= v);
    assert(trimmed_front(whole, strip) == trimmed_front(rest, strip));
    if v.len() > 0 {
        assert(rest[0] == v[0]);
        assert(trimmed_front(rest, strip) == rest);
        assert(trimmed_back(rest, strip) == trimmed_back(v, strip));
        assert(trimmed_back(v, strip) == v);
    } else {
        assert(rest.drop_first() =~= v);
        assert(trimmed_front(rest, strip) == trimmed_front(v, strip));
    }
}

/// A value counts without the blanks and the quotes around it, be they double or single.
pub proof fn law_values_are_unquoted(v: Seq<char>)
    requires
        v.len() > 0 ==> !is_white_space(v[0]) && v[0] != '"' && v[0] != '\'' && !is_white_space(
            v.last(),
        ) && v.last() != '"' && v.last() != '\'',
    ensures
        unquoted(v) == v,
        unquoted(seq!['"'] + v + seq!['"']) == v,
        unquoted(seq!['\''] + v + seq!['\'']) == v,
        unquoted(seq![' '] + v + seq!['\r']) == v,
{
    assert(!is_white_space('"') && !is_white_space('\''));
    lemma_nothing_to_trim(v, Strip::WhiteSpace);
    lemma_nothing_to_trim(v, Strip::Only('"'));
    lemma_nothing_to_trim(v, Strip::Only('\''));
    let double = seq!['"'] + v + seq!['"'];
    lemma_nothing_to_trim(double, Strip::WhiteSpace);
    lemma_wrapped(v, '"', '"', Strip::Only('"'));
    let single = seq!['\''] + v + seq!['\''];
    lemma_nothing_to_trim(single, Strip::WhiteSpace);
    lemma_nothing_to_trim(single, Strip::Only('"'));
    lemma_wrapped(v, '\'', '\'', Strip::Only('\''));
    lemma_wrapped(v, ' ', '\r', Strip::WhiteSpace);
}

/// An assignment is cut at its first equals sign: blanks around the name do not count, and
/// the value may hold further equals signs.
pub proof fn law_assignments_are_cut_at_the_first_equals_sign(name: Seq<char>, value: Seq<char>)
    requires
        name.len() > 0,
        forall|i: int| 0 <= i < name.len() ==> name[i] != '=',
        !is_white_space(name[0]) && !is_white_space(name.last()),
        value.len() > 0 ==> !is_white_space(value[0]) && value[0] != '"' && value[0] != '\''
            && !is_white_space(value.last()) && value.last() != '"' && value.last() != '\'',
    ensures
        assignment(name + seq!['='] + value) == Some((name, value)),
        assignment(seq![' '] + name + seq![' '] + seq!['='] + value) == Some((name, value)),
{
    let n = name.len() as int;
    let plain = name + seq!['='] + value;
    lemma_first_of_unique(plain, '=', n);
    assert(plain.take(n) =~= name);
    assert(plain.skip(n + 1) =~= value);
    lemma_nothing_to_trim(name, Strip::WhiteSpace);
    law_values_are_unquoted(value);
    let wide = seq![' '] + name + seq![' '];
    let spaced = wide + seq!['='] + value;
    lemma_first_of_unique(spaced, '=', n + 2);
    assert(spaced.take(n + 2) =~= wide);
    assert(spaced.skip(n + 3) =~= value);
    lemma_wrapped(name, ' ', ' ', Strip::WhiteSpace);
}

/// In a key file the first assignment of the private key variable counts: lines before it
/// that assign nothing are passed over, and what follows it does not matter.
pub proof fn law_first_key_assignment_counts(key: Seq<u8>, before: Seq<char>, after: Seq<char>)
    requires
        key.len() > 0,
        before.len() > 0,
        !is_white_space(before[0]),
        forall|i: int| 0 <= i < before.len() ==> before[i] != '=' && before[i] != '\n',
        after.len() > 0,
        !is_white_space(after.last()),
    ensures
        key_in_file(PRIVATE_KEY_NAME@ + seq!['='] + hex_text(key) + seq!['\n'] + after) == hex_text(
            key,
        ),
        key_in_file(before + seq!['\n'] + (PRIVATE_KEY_NAME@ + seq!['='] + hex_text(key)))
            == hex_text(key),
{
    let line = PRIVATE_KEY_NAME@ + seq!['='] + hex_text(key);
    lemma_key_assignment(key);
    lemma_first_of(line, '\n');
    let first = line + seq!['\n'] + after;
    lemma_nothing_to_trim(first, Strip::WhiteSpace);
    law_lines_end_at_line_feeds(line, after);
    assert((seq![line] + lines(after))[0] == line);
    assert(key_line(lines(first)) == 0);
    let second = before + seq!['\n'] + line;
    lemma_hex_text_is_plain(key, hex_text(key).len() - 1);
    assert(second.last() == hex_text(key).last());
    lemma_nothing_to_trim(second, Strip::WhiteSpace);
    law_lines_end_at_line_feeds(before, line);
    let all = lines(second);
    assert(all =~= seq![before, line]);
    lemma_first_of_unique(before, '=', before.len() as int);
    assert(assignment(before) is None);
    assert(all.drop_first() =~= seq![line]);
    assert(key_line(seq![line]) == 0);
    assert(key_line(all) == 1);
}

} // verus!
