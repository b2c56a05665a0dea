//! The emulator's discovery files: where they lie, how they are read, and
//! which of them names the token of the server on a port.
use crate::text::{
    begins_with, decimal, decimal_reads_back, ends_are_prefixes_and_suffixes, ends_in, ends_with,
    is_digit, is_line, joined_sides_split, lemma_strip_back_len, lemma_strip_front_first, lines, lines_of,
    lines_undo_unlines, no_sides, number_of, parse_u16, parse_undoes_decimal, sides_of,
    split_once, starts_with, strip, strip_front, texts, trimmed, unlines, unpadded_is_kept,
    unquoted, Padding,
};
use vstd::hash_map::StringHashMap;
use vstd::prelude::*;
use vstd::string::StringSliceAdditionalSpecFns;

verus! {

/// `path` under the directory `base`: with a slash between them, unless the
/// base is empty or ends in one.
pub open spec fn joined(base: Seq<u8>, path: Seq<u8>) -> Seq<u8> {
    if base.len() == 0 || base.last() == 0x2f {
        base + path
    } else {
        base.push(0x2f) + path
    }
}

/// The relative path `path` under the directory `base`, in bytes.
fn join(base: &[u8], path: &str) -> (r: Vec<u8>)
    ensures
        r@ == joined(base@, path.spec_bytes()),
{
    let mut r: Vec<u8> = Vec::new();
    r.extend_from_slice(base);
    assert(r@ == base@);
    if base.len() > 0 && base[base.len() - 1] != 0x2f {
        r.push(0x2f);
    }
    let ghost dir = r@;
    r.extend_from_slice(path.as_bytes());
    assert(r@ == dir + path.spec_bytes());
    r
}

/// The directories that hold discovery files, for the values that `HOME` and
/// `XDG_RUNTIME_DIR` have where they are set.
pub open spec fn dirs_for(home: Option<Seq<u8>>, runtime: Option<Seq<u8>>) -> Seq<Seq<u8>> {
    let under_home = match home {
        Some(base) => seq![
            joined(base, "Library/Caches/TemporaryItems/avd/running".spec_bytes()),
        ],
        None => seq![],
    };
    let under_runtime = match runtime {
        Some(base) => seq![joined(base, "avd/running".spec_bytes())],
        None => seq![],
    };
    under_home + under_runtime
}

/// What an optional byte slice holds.
pub open spec fn held(bytes: Option<&[u8]>) -> Option<Seq<u8>> {
    match bytes {
        Some(b) => Some(b@),
        None => None,
    }
}

/// The directories that hold discovery files, in the order in which they are
/// searched.
pub fn discovery_dirs(home: Option<&[u8]>, runtime: Option<&[u8]>) -> (dirs: Vec<Vec<u8>>)
    ensures
        dirs@.map_values(|d: Vec<u8>| d@) == dirs_for(held(home), held(runtime)),
{
    let mut dirs: Vec<Vec<u8>> = Vec::new();
    if let Some(base) = home {
        dirs.push(join(base, "Library/Caches/TemporaryItems/avd/running"));
    }
    if let Some(base) = runtime {
        dirs.push(join(base, "avd/running"));
    }
    assert(dirs@.map_values(|d: Vec<u8>| d@) =~= dirs_for(held(home), held(runtime)));
    dirs
}

/// The settings that the lines of a file make, where a later line overrides an
/// earlier one: the text before the first equals sign, without the white space
/// around it, names the setting; the text after it, without the white space
/// around it and then without the quotes around it, is the value. A line
/// without an equals sign makes none.
pub open spec fn settings(lines: Seq<Seq<char>>) -> Map<Seq<char>, Seq<char>>
    decreases lines.len(),
{
    if lines.len() == 0 {
        Map::empty()
    } else {
        let earlier = settings(lines.drop_last());
        match sides_of(lines.last(), '=') {
            Some((k, v)) => earlier.insert(trimmed(k), unquoted(trimmed(v))),
            None => earlier,
        }
    }
}

/// A line that writes a setting makes that setting, whatever the lines before
/// it say, and changes no other.
pub proof fn written_setting_is_read(
    lines: Seq<Seq<char>>,
    key: Seq<char>,
    value: Seq<char>,
    other: Seq<char>,
)
    requires
        !key.contains('='),
    ensures
        ({
            let before = settings(lines);
            let after = settings(lines.push(key.push('=') + value));
            let name = trimmed(key);
            &&& after.contains_key(name) && after[name] == unquoted(trimmed(value))
            &&& other != name ==> after.contains_key(other) == before.contains_key(other) && (
            before.contains_key(other) ==> after[other] == before[other])
        }),
{
    let all = lines.push(key.push('=') + value);
    joined_sides_split(key, '=', value);
    assert(all.drop_last() == lines);
}

/// A line without an equals sign makes no setting.
pub proof fn other_lines_are_ignored(lines: Seq<Seq<char>>, line: Seq<char>)
    requires
        !line.contains('='),
    ensures
        settings(lines.push(line)) == settings(lines),
{
    no_sides(line, '=');
    assert(lines.push(line).drop_last() == lines);
}

/// What a map of strings holds.
pub open spec fn entries(m: StringHashMap<String>) -> Map<Seq<char>, Seq<char>> {
    m@.map_values(|v: String| v@)
}

/// The settings of an INI file.
pub fn parse_ini(text: &str) -> (m: StringHashMap<String>)
    ensures
        entries(m) == settings(lines_of(text@)),
{
    let all = lines(text);
    let len: usize = all.len();
    let mut m: StringHashMap<String> = StringHashMap::new();
    let mut i: usize = 0;
    assert(entries(m) =~= Map::empty());
    while i < len
        invariant
            len == all@.len(),
            texts(all@) == lines_of(text@),
            i <= len,
            entries(m) == settings(lines_of(text@).take(i as int)),
        decreases len - i,
    {
        let ghost seen = lines_of(text@).take(i + 1);
        assert(seen.drop_last() == lines_of(text@).take(i as int));
        assert(seen.last() == all@[i as int]@);
        if let Some((k, v)) = split_once(all[i].as_str(), '=') {
            let key = strip(k, Padding::Blank).to_owned();
            let value = strip(strip(v, Padding::Blank), Padding::Quote).to_owned();
            let ghost before = entries(m);
            m.insert(key, value);
            assert(entries(m) =~= before.insert(key@, value@));
        }
        i = i + 1;
    }
    assert(lines_of(text@).take(len as int) == lines_of(text@));
    m
}

/// An entry of a discovery directory.
#[derive(Debug)]
pub struct DiscoveryFile {
    /// The file name.
    pub name: String,
    /// What the file holds, where it can be read as text.
    pub text: Option<String>,
    /// When the file was last modified, in nanoseconds since the Unix epoch,
    /// where that is known.
    pub modified: Option<i128>,
}

/// What an entry says.
pub struct FileModel {
    pub name: Seq<char>,
    pub text: Option<Seq<char>>,
    pub modified: Option<i128>,
}

impl View for DiscoveryFile {
    type V = FileModel;

    open spec fn view(&self) -> FileModel {
        FileModel {
            name: self.name@,
            text: match self.text {
                Some(t) => Some(t@),
                None => None,
            },
            modified: self.modified,
        }
    }
}

/// Whether a file name is that of a discovery file.
pub open spec fn discovery_name(name: Seq<char>) -> bool {
    begins_with(name, "pid_"@) && ends_in(name, ".ini"@)
}

/// Whether a file name is that of a discovery file.
pub fn is_discovery_file(name: &str) -> (r: bool)
    ensures
        r == discovery_name(name@),
{
    starts_with(name, "pid_") && ends_with(name, ".ini")
}

/// The token that settings name for the server on `port`.
pub open spec fn token_for(kv: Map<Seq<char>, Seq<char>>, port: u16) -> Option<Seq<char>> {
    if kv.contains_key("grpc.port"@) && number_of(kv["grpc.port"@], 0xffff) == Some(port as nat)
        && kv.contains_key("grpc.token"@) {
        Some(kv["grpc.token"@])
    } else {
        None
    }
}

impl FileModel {
    /// The token that the entry names for the server on `port`.
    pub open spec fn token(self, port: u16) -> Option<Seq<char>> {
        match self.text {
            Some(text) => if discovery_name(self.name) {
                token_for(settings(lines_of(text)), port)
            } else {
                None
            },
            None => None,
        }
    }

    /// When the entry was modified, where an unknown time counts as the epoch.
    pub open spec fn time(self) -> int {
        match self.modified {
            Some(t) => t as int,
            None => 0,
        }
    }
}

/// Whether entry `i` is the newest that names a token for `port`; the first of
/// them, where several are equally new.
pub open spec fn newest(files: Seq<FileModel>, port: u16, i: int) -> bool {
    &&& 0 <= i < files.len()
    &&& files[i].token(port) is Some
    &&& forall|j: int|
        0 <= j < files.len() && (#[trigger] files[j]).token(port) is Some ==> files[j].time()
            <= files[i].time() && (j < i ==> files[j].time() < files[i].time())
}

/// What the entries of a list say, in order.
pub open spec fn models(files: Seq<DiscoveryFile>) -> Seq<FileModel> {
    files.map_values(|f: DiscoveryFile| f@)
}

/// The token that an entry names for the server on `port`.
pub fn token_of(file: &DiscoveryFile, port: u16) -> (r: Option<String>)
    ensures
        match r {
            Some(token) => file@.token(port) == Some(token@),
            None => file@.token(port) is None,
        },
{
    if !is_discovery_file(file.name.as_str()) {
        return None;
    }
    match &file.text {
        Some(text) => {
            let kv = parse_ini(text.as_str());
            match kv.get("grpc.port") {
                Some(p) => {
                    assert(entries(kv)["grpc.port"@] == p@);
                    match parse_u16(p.as_str()) {
                        Some(n) => if n != port {
                            return None;
                        },
                        None => {
                            return None;
                        },
                    }
                },
                None => {
                    return None;
                },
            }
            match kv.get("grpc.token") {
                Some(token) => {
                    assert(entries(kv)["grpc.token"@] == token@);
                    Some(token.clone())
                },
                None => None,
            }
        },
        None => None,
    }
}

/// The token of the server on `port`: that of the newest discovery file that
/// names the port and a token.
pub fn find_token(files: &Vec<DiscoveryFile>, port: u16) -> (r: Option<String>)
    ensures
        match r {
            Some(token) => exists|i: int| #[trigger]
                newest(models(files@), port, i) && models(files@)[i].token(port) == Some(token@),
            None => forall|i: int|
                0 <= i < files@.len() ==> (#[trigger] models(files@)[i]).token(port) is None,
        },
{
    let len: usize = files.len();
    let mut best: Option<(i128, String)> = None;
    let ghost mut at: int = 0;
    let ghost all = models(files@);
    let mut i: usize = 0;
    while i < len
        invariant
            len == files@.len(),
            all == models(files@),
            i <= len,
            match best {
                Some((time, token)) => {
                    &&& 0 <= at < i
                    &&& all[at].token(port) == Some(token@)
                    &&& all[at].time() == time
                    &&& forall|j: int|
                        0 <= j < i && (#[trigger] all[j]).token(port) is Some ==> all[j].time()
                            <= time && (j < at ==> all[j].time() < time)
                },
                None => forall|j: int| 0 <= j < i ==> (#[trigger] all[j]).token(port) is None,
            },
        decreases len - i,
    {
        let file = &files[i];
        assert(all[i as int] == file@);
        if let Some(token) = token_of(file, port) {
            let time: i128 = match file.modified {
                Some(t) => t,
                None => 0,
            };
            let newer = match &best {
                Some((t, _)) => time > *t,
                None => true,
            };
            if newer {
                best = Some((time, token));
                proof {
                    at = i as int;
                }
            }
        }
        i = i + 1;
    }
    match best {
        Some((_, token)) => {
            assert(newest(all, port, at));
            Some(token)
        },
        None => None,
    }
}

/// At most one entry is the newest, so the token found does not depend on how
/// the search is made.
pub proof fn newest_is_unique(files: Seq<FileModel>, port: u16, i: int, j: int)
    requires
        newest(files, port, i),
        newest(files, port, j),
    ensures
        i == j,
{
    assert(files[i].token(port) is Some && files[j].token(port) is Some);
}

/// A server's discovery file is found by the port that it was launched with:
/// a file that writes its port in decimal and a token names that token for
/// that port and for no other.
pub proof fn written_port_is_found(kv: Map<Seq<char>, Seq<char>>, port: u16, other: u16)
    requires
        kv.contains_key("grpc.port"@),
        kv["grpc.port"@] == decimal(port as nat),
        kv.contains_key("grpc.token"@),
    ensures
        token_for(kv, port) == Some(kv["grpc.token"@]),
        other != port ==> token_for(kv, other) is None,
{
    parse_undoes_decimal(port as nat, 0xffff);
}

/// The text that a server on `port` writes to its discovery file: other lines,
/// its port and its token.
pub open spec fn discovery_text(others: Seq<Seq<char>>, port: u16, token: Seq<char>) -> Seq<char> {
    unlines(
        others.push("grpc.port="@ + decimal(port as nat)).push("grpc.token="@ + token),
    )
}

/// What a server writes to its discovery file is what is found: the token, for
/// the port that it listens on and for no other, whatever lines come before.
pub proof fn written_token_is_found(
    name: Seq<char>,
    others: Seq<Seq<char>>,
    port: u16,
    token: Seq<char>,
    modified: Option<i128>,
    other: u16,
)
    requires
        discovery_name(name),
        forall|i: int| 0 <= i < others.len() ==> is_line(#[trigger] others[i]),
        !token.contains('\n'),
        trimmed(token) == token,
        unquoted(token) == token,
    ensures
        ({
            let file = FileModel { name, text: Some(discovery_text(others, port, token)), modified };
            &&& file.token(port) == Some(token)
            &&& other != port ==> file.token(other) is None
        }),
{
    reveal_strlit("grpc.port");
    reveal_strlit("grpc.port=");
    reveal_strlit("grpc.token");
    reveal_strlit("grpc.token=");
    let (k1, k2) = ("grpc.port"@, "grpc.token"@);
    let number = decimal(port as nat);
    let (l1, l2) = ("grpc.port="@ + number, "grpc.token="@ + token);
    assert(l1 =~= k1.push('=') + number);
    assert(l2 =~= k2.push('=') + token);
    decimal_reads_back(port as nat);
    assert(is_digit(number[0]) && is_digit(number.last()));
    unpadded_is_kept(k1, Padding::Blank);
    unpadded_is_kept(k2, Padding::Blank);
    unpadded_is_kept(number, Padding::Blank);
    unpadded_is_kept(number, Padding::Quote);
    let lines = others.push(l1).push(l2);
    assert(is_line(l1)) by {
        assert forall|i: int| 0 <= i < l1.len() implies l1[i] != '\n' by {
            if i >= k1.len() + 1 {
                assert(l1[i] == number[i - (k1.len() + 1)]);
                assert(is_digit(number[i - (k1.len() + 1)]));
            }
        }
        assert(l1.last() == number.last());
    }
    assert(is_line(l2)) by {
        assert forall|i: int| 0 <= i < l2.len() implies l2[i] != '\n' by {
            if i >= k2.len() + 1 {
                assert(l2[i] == token[i - (k2.len() + 1)]);
            }
        }
        if token.len() > 0 {
            assert(l2.last() == token.last());
            lemma_trimmed_end(token);
        }
    }
    assert forall|i: int| 0 <= i < lines.len() implies is_line(#[trigger] lines[i]) by {}
    lines_undo_unlines(lines);
    assert(k1[5] == 'p' && k2[5] == 't');
    assert(!k1.contains('=') && !k2.contains('='));
    written_setting_is_read(others, k1, number, k2);
    written_setting_is_read(others.push(l1), k2, token, k1);
    let kv = settings(lines);
    written_port_is_found(kv, port, other);
}

proof fn lemma_trimmed_end(s: Seq<char>)
    requires
        s.len() > 0,
        trimmed(s) == s,
    ensures
        s.last() != '\r',
{
    let front = strip_front(s, Padding::Blank);
    lemma_strip_front_first(s, Padding::Blank);
    lemma_strip_back_len(front, Padding::Blank);
    assert(front == s) by {
        if Padding::Blank.has(s[0]) {
            lemma_strip_front_first(s.drop_first(), Padding::Blank);
        }
    }
    if Padding::Blank.has(s.last()) {
        lemma_strip_back_len(s.drop_last(), Padding::Blank);
    }
}

/// A path under a directory is the directory and the path, with one slash
/// between them where the directory is not empty and does not end in one.
pub proof fn joined_path_lies_in_its_directory(base: Seq<u8>, path: Seq<u8>)
    ensures
        base.len() == 0 ==> joined(base, path) == path,
        base.len() > 0 && base.last() == 0x2f ==> joined(base, path) == base + path,
        base.len() > 0 && base.last() != 0x2f ==> joined(base, path) == base + seq![0x2fu8] + path,
{
    assert(base + seq![0x2fu8] =~= base.push(0x2f));
}

/// Each variable that is set gives one directory, that of `HOME` first, and one
/// that is not set gives none.
pub proof fn each_set_variable_gives_a_directory(home: Option<&[u8]>, runtime: Option<&[u8]>)
    ensures
        ({
            let dirs = dirs_for(held(home), held(runtime));
            &&& home is None && runtime is None ==> dirs.len() == 0
            &&& home is Some && runtime is None ==> dirs == seq![
                joined(home->0@, "Library/Caches/TemporaryItems/avd/running".spec_bytes()),
            ]
            &&& home is None && runtime is Some ==> dirs == seq![
                joined(runtime->0@, "avd/running".spec_bytes()),
            ]
            &&& home is Some && runtime is Some ==> dirs == seq![
                joined(home->0@, "Library/Caches/TemporaryItems/avd/running".spec_bytes()),
                joined(runtime->0@, "avd/running".spec_bytes()),
            ]
        }),
{
}

/// A file without lines has no settings, and the settings of a map are those of
/// its strings.
pub proof fn settings_are_those_of_the_strings(m: StringHashMap<String>, key: Seq<char>)
    ensures
        settings(Seq::empty()) == Map::<Seq<char>, Seq<char>>::empty(),
        entries(m).contains_key(key) == m@.contains_key(key),
        m@.contains_key(key) ==> entries(m)[key] == m@[key]@,
{
}

/// A discovery file is named `pid_`, anything, and `.ini`.
pub proof fn discovery_files_are_told_by_name(name: Seq<char>, pid: Seq<char>)
    ensures
        discovery_name(name) <==> "pid_"@.is_prefix_of(name) && ".ini"@.is_suffix_of(name),
        discovery_name("pid_"@ + pid + ".ini"@),
{
    ends_are_prefixes_and_suffixes(name, "pid_"@);
    ends_are_prefixes_and_suffixes(name, ".ini"@);
    ends_are_prefixes_and_suffixes(pid + ".ini"@, "pid_"@);
    ends_are_prefixes_and_suffixes("pid_"@ + pid, ".ini"@);
    assert("pid_"@ + pid + ".ini"@ =~= "pid_"@ + (pid + ".ini"@));
}

/// Settings name a token for a port exactly where `grpc.port` reads as the port
/// and `grpc.token` is set, and the token is what it is set to.
pub proof fn named_token_goes_with_the_port(
    kv: Map<Seq<char>, Seq<char>>,
    port: u16,
    token: Seq<char>,
)
    ensures
        token_for(kv, port) == Some(token) <==> kv.contains_pair("grpc.token"@, token)
            && kv.contains_key("grpc.port"@) && number_of(kv["grpc.port"@], 0xffff) == Some(
            port as nat,
        ),
{
}

/// An entry names a token exactly where it is a discovery file that could be
/// read and its settings name the token; when it was modified does not matter.
pub proof fn only_read_discovery_files_name_tokens(file: DiscoveryFile, port: u16)
    ensures
        file.text is None ==> file@.token(port) is None,
        !("pid_"@.is_prefix_of(file.name@) && ".ini"@.is_suffix_of(file.name@)) ==> file@.token(
            port,
        ) is None,
        file.text is Some && "pid_"@.is_prefix_of(file.name@) && ".ini"@.is_suffix_of(file.name@)
            ==> file@.token(port) == token_for(settings(lines_of(file.text->0@)), port),
{
    discovery_files_are_told_by_name(file.name@, Seq::empty());
}

/// The token that is found is that of the file that was modified last: no file
/// that names a token for the port has a later time, and none that is listed
/// before it has the same. A time that is not known counts as the epoch.
pub proof fn no_matching_file_is_newer(
    files: Seq<DiscoveryFile>,
    port: u16,
    i: int,
    j: int,
)
    requires
        newest(models(files), port, i),
        0 <= j < files.len(),
        files[j]@.token(port) is Some,
    ensures
        0 <= i < files.len(),
        files[i]@.token(port) is Some,
        models(files)[i] == files[i]@,
        files[i].modified is Some && files[j].modified is Some ==> {
            &&& files[j].modified->0 <= files[i].modified->0
            &&& j < i ==> files[j].modified->0 < files[i].modified->0
        },
        files[i].modified is Some && files[j].modified is None ==> {
            &&& 0 <= files[i].modified->0
            &&& j < i ==> 0 < files[i].modified->0
        },
        files[i].modified is None && files[j].modified is Some ==> {
            &&& files[j].modified->0 <= 0
            &&& j < i ==> files[j].modified->0 < 0
        },
        files[i].modified is None && files[j].modified is None ==> i <= j,
{
    assert(models(files)[j] == files[j]@);
    assert(models(files)[i] == files[i]@);
}

/// Where some file names a token for the port, one of them is the newest, so
/// one is found.
pub proof fn a_named_token_is_found(files: Seq<FileModel>, port: u16, j: int)
    requires
        0 <= j < files.len(),
        files[j].token(port) is Some,
    ensures
        exists|i: int| newest(files, port, i),
    decreases files.len(),
{
    let n = files.len() - 1;
    let earlier = files.take(n);
    if exists|k: int| 0 <= k < n && (#[trigger] earlier[k]).token(port) is Some {
        let k = choose|k: int| 0 <= k < n && (#[trigger] earlier[k]).token(port) is Some;
        a_named_token_is_found(earlier, port, k);
        let i = choose|i: int| newest(earlier, port, i);
        assert(earlier[i] == files[i]);
        let best = if files[n].token(port) is Some && files[n].time() > files[i].time() {
            n
        } else {
            i
        };
        assert forall|m: int|
            0 <= m < files.len() && (#[trigger] files[m]).token(port) is Some implies files[m].time()
            <= files[best].time() && (m < best ==> files[m].time() < files[best].time()) by {
            if m < n {
                assert(earlier[m] == files[m]);
            }
        }
        assert(newest(files, port, best));
    } else {
        assert forall|m: int|
            0 <= m < n implies (#[trigger] files[m]).token(port) is None by {
            assert(earlier[m] == files[m]);
        }
        assert(newest(files, port, n));
    }
}

} // verus!
