//! The user's settings and the environment variables that override them.
use crate::ascii::lemma_below;
use crate::path::{joined, optional_path, root, FsPath, SEPARATOR};
use crate::text::{chars_of, decimal, law_decimal_reads_back, parse_u16, parsed_u16};
use vstd::prelude::*;
use vstd::utf8::{
    char_is_scalar, char_u32_cast, encode_scalar, encode_utf8, leading_byte_width_1, leading_byte_width_2,
    leading_byte_width_3, leading_byte_width_4,
};

verus! {

/// The port that the desktop app owns when it must spawn its own engine.
pub const DESKTOP_PORT: u16 = 3480;

/// The persistent settings.
pub struct Settings {
    pub workspace: Option<FsPath>,
    pub prefer_port: Option<u16>,
}

/// The first of two optional paths that is there.
pub open spec fn first_path(a: Option<Seq<u8>>, b: Option<Seq<u8>>) -> Option<Seq<u8>> {
    if a is Some {
        a
    } else {
        b
    }
}

/// A path, or the root directory where there is none.
pub open spec fn or_root(p: Option<Seq<u8>>) -> Seq<u8> {
    match p {
        Some(p) => p,
        None => root(),
    }
}

/// Whether `after` is `before` with the workspace `path`.
pub open spec fn chosen(before: Settings, after: Settings, path: Seq<u8>) -> bool {
    optional_path(after.workspace) == Some(path) && after.prefer_port == before.prefer_port
}

/// Whether `s` are the settings that were read, or none where they could not be.
pub open spec fn loaded(read: Option<Settings>, s: Settings) -> bool {
    match read {
        Some(r) => s == r,
        None => s.workspace is None && s.prefer_port is None,
    }
}

/// The data directory that the engine is told to use, if the environment names one.
pub open spec fn engine_home_path(
    variable: Option<Seq<char>>,
    home: Option<Seq<u8>>,
) -> Option<Seq<u8>> {
    match variable {
        Some(name) => Some(joined(or_root(home), encode_utf8(name))),
        None => None,
    }
}

/// The engine's own data directory.
pub open spec fn data_folder_path(home: Option<Seq<u8>>) -> Option<Seq<u8>> {
    match home {
        Some(h) => Some(joined(h, encode_utf8(".dsh"@))),
        None => None,
    }
}

/// Where the settings are kept.
pub open spec fn settings_file_path(config_dir: Option<Seq<u8>>) -> Option<Seq<u8>> {
    match config_dir {
        Some(dir) => Some(joined(dir, encode_utf8("settings.json"@))),
        None => None,
    }
}

impl Settings {
    /// The directory that the engine works in: the chosen workspace, else the home directory,
    /// else the root directory.
    pub open spec fn workspace_path(self, home: Option<Seq<u8>>) -> Seq<u8> {
        or_root(first_path(optional_path(self.workspace), home))
    }

    /// The port to try first: the one that the environment names if it is a number, else the
    /// one in the settings, else the default.
    pub open spec fn port_to_prefer(self, variable: Option<Seq<char>>) -> u16 {
        let named = match variable {
            Some(text) => parsed_u16(text),
            None => None,
        };
        match named {
            Some(port) => port,
            None => match self.prefer_port {
                Some(port) => port,
                None => DESKTOP_PORT,
            },
        }
    }

    /// The directory that the engine works in.
    pub fn workspace_dir(&self, home: &Option<FsPath>) -> (p: FsPath)
        ensures
            p@ == self.workspace_path(optional_path(*home)),
    {
        match &self.workspace {
            Some(p) => p.clone(),
            None => match home {
                Some(p) => p.clone(),
                None => FsPath::root(),
            },
        }
    }

    /// The port to try first.
    pub fn preferred_port(&self, variable: Option<&str>) -> (port: u16)
        ensures
            port == self.port_to_prefer(crate::http::optional_str(variable)),
    {
        let named: Option<u16> = match variable {
            Some(text) => {
                let chars = chars_of(text);
                parse_u16(chars.as_slice())
            },
            None => None,
        };
        match named {
            Some(port) => port,
            None => match self.prefer_port {
                Some(port) => port,
                None => DESKTOP_PORT,
            },
        }
    }

    /// Chooses the workspace.
    pub fn choose_workspace(&mut self, path: FsPath)
        ensures
            optional_path(final(self).workspace) == Some(path@),
            final(self).prefer_port == old(self).prefer_port,
            chosen(*old(self), *final(self), path@),
    {
        self.workspace = Some(path);
    }
}

impl Default for Settings {
    /// Nothing is set.
    fn default() -> (s: Self)
        ensures
            s.workspace is None,
            s.prefer_port is None,
    {
        Settings { workspace: None, prefer_port: None }
    }
}

/// The settings to start with: those that were read, or none where they could not be.
pub fn load_settings(read: Option<Settings>) -> (s: Settings)
    ensures
        match read {
            Some(r) => s == r,
            None => s.workspace is None && s.prefer_port is None,
        },
        loaded(read, s),
{
    match read {
        Some(s) => s,
        None => Settings::default(),
    }
}

/// The home directory, out of the two environment variables that may name it.
pub fn home_dir(home: Option<FsPath>, user_profile: Option<FsPath>) -> (p: Option<FsPath>)
    ensures
        optional_path(p) == first_path(optional_path(home), optional_path(user_profile)),
{
    match home {
        Some(p) => Some(p),
        None => user_profile,
    }
}

/// The data directory that the engine is told to use, if the environment names one. A relative
/// name is taken from the home directory, or from the root directory where there is no home.
pub fn engine_home(variable: Option<&str>, home: &Option<FsPath>) -> (p: Option<FsPath>)
    ensures
        optional_path(p) == match variable {
            Some(name) => Some(joined(or_root(optional_path(*home)), encode_utf8(name@))),
            None => None,
        },
        optional_path(p) == engine_home_path(
            crate::http::optional_str(variable),
            optional_path(*home),
        ),
{
    match variable {
        Some(name) => match home {
            Some(h) => Some(h.join(name)),
            None => Some(FsPath::root().join(name)),
        },
        None => None,
    }
}

/// The engine's own data directory, below the home directory.
pub fn data_folder(home: &Option<FsPath>) -> (p: Option<FsPath>)
    ensures
        optional_path(p) == match optional_path(*home) {
            Some(h) => Some(joined(h, encode_utf8(".dsh"@))),
            None => None,
        },
        optional_path(p) == data_folder_path(optional_path(*home)),
{
    match home {
        Some(h) => Some(h.join(".dsh")),
        None => None,
    }
}

/// Where the settings are kept, below the app's configuration directory.
pub fn settings_path(config_dir: &Option<FsPath>) -> (p: Option<FsPath>)
    ensures
        optional_path(p) == match optional_path(*config_dir) {
            Some(dir) => Some(joined(dir, encode_utf8("settings.json"@))),
            None => None,
        },
        optional_path(p) == settings_file_path(optional_path(*config_dir)),
{
    match config_dir {
        Some(dir) => Some(dir.join("settings.json")),
        None => None,
    }
}

/// A port that the environment names wins over the settings; the settings win over the default.
pub proof fn law_named_port_is_preferred(s: Settings, port: u16)
    ensures
        s.port_to_prefer(Some(decimal(port as nat))) == port,
        s.port_to_prefer(None) == (if s.prefer_port is Some {
            s.prefer_port->0
        } else {
            DESKTOP_PORT
        }),
{
    law_decimal_reads_back(port);
}

/// A name is absolute exactly if it starts with a slash: then it is the data directory itself;
/// otherwise it lies below the home directory.
pub proof fn law_absolute_name_stands_for_itself(home: Seq<u8>, name: Seq<char>)
    requires
        name.len() > 0,
    ensures
        name[0] == '/' ==> joined(home, encode_utf8(name)) == encode_utf8(name),
        name[0] != '/' && home.len() > 0 && home.last() != SEPARATOR ==> joined(
            home,
            encode_utf8(name),
        ) == home + seq![SEPARATOR] + encode_utf8(name),
{
    let u = name[0] as u32;
    char_is_scalar(name[0]);
    char_u32_cast(name[0], u);
    assert(u <= 0x7f ==> leading_byte_width_1(u) == u) by (bit_vector);
    assert(leading_byte_width_2(u) != 47) by (bit_vector);
    assert(leading_byte_width_3(u) != 47) by (bit_vector);
    assert(leading_byte_width_4(u) != 47) by (bit_vector);
    assert(encode_scalar(u)[0] == 47 <==> u == 47);
    assert(encode_utf8(name)[0] == encode_scalar(u)[0]);
}

/// The engine works in the chosen workspace, whatever the home directory is; without one, in the
/// home directory; and without either, in the root directory.
pub proof fn law_workspace_then_home_then_root(s: Settings, home: Option<Seq<u8>>)
    ensures
        s.workspace matches Some(w) ==> s.workspace_path(home) == w@,
        s.workspace is None ==> (home matches Some(h) ==> s.workspace_path(home) == h),
        s.workspace is None && home is None ==> s.workspace_path(home) == seq![47u8],
{
}

/// The port that the environment names is preferred if it can be read. What cannot be read counts
/// for nothing, and with nothing set it is port 3480.
pub proof fn law_port_is_named_set_or_default(s: Settings, text: Seq<char>)
    ensures
        parsed_u16(text) matches Some(port) ==> s.port_to_prefer(Some(text)) == port,
        parsed_u16(text) is None ==> s.port_to_prefer(Some(text)) == s.port_to_prefer(None),
        s.prefer_port matches Some(port) ==> s.port_to_prefer(None) == port,
        s.prefer_port is None ==> s.port_to_prefer(None) == 3480,
{
}

/// Choosing a workspace makes the engine work there, whatever it was before, and does not change
/// which port is preferred.
pub proof fn law_chosen_workspace_is_used(
    before: Settings,
    after: Settings,
    path: Seq<u8>,
    home: Option<Seq<u8>>,
    variable: Option<Seq<char>>,
)
    requires
        chosen(before, after, path),
    ensures
        after.workspace_path(home) == path,
        after.port_to_prefer(variable) == before.port_to_prefer(variable),
{
}

/// Settings that were read say the same once they are loaded. Where none could be read, the
/// engine works in the home directory, and port 3480 is preferred.
pub proof fn law_settings_that_were_read_are_used(
    read: Option<Settings>,
    s: Settings,
    home: Option<Seq<u8>>,
    variable: Option<Seq<char>>,
)
    requires
        loaded(read, s),
    ensures
        read matches Some(r) ==> s.workspace_path(home) == r.workspace_path(home)
            && s.port_to_prefer(variable) == r.port_to_prefer(variable),
        read is None ==> (home matches Some(h) ==> s.workspace_path(home) == h),
        read is None ==> s.port_to_prefer(None) == 3480,
{
}

/// The home directory is the one that the first variable names, and the second counts only where
/// the first is not set.
pub proof fn law_first_variable_names_the_home(a: Seq<u8>, b: Option<Seq<u8>>)
    ensures
        first_path(Some(a), b) == Some(a),
        first_path(None, b) == b,
{
}

/// The app's and the engine's own files lie below their directories.
pub proof fn law_files_lie_below_their_directories(dir: Seq<u8>)
    requires
        dir.len() > 0,
        dir.last() != 47,
    ensures
        data_folder_path(Some(dir)) == Some(dir + encode_utf8("/.dsh"@)),
        settings_file_path(Some(dir)) == Some(dir + encode_utf8("/settings.json"@)),
        data_folder_path(None) is None,
        settings_file_path(None) is None,
{
    reveal_strlit(".dsh");
    reveal_strlit("/.dsh");
    reveal_strlit("settings.json");
    reveal_strlit("/settings.json");
    lemma_below(dir, ".dsh"@, "/.dsh"@);
    lemma_below(dir, "settings.json"@, "/settings.json"@);
}

/// The data directory that the environment names: none where it names none, an absolute name as
/// it is, and any other below the home directory, or below the root where there is none.
pub proof fn law_named_data_directory(name: Seq<char>, home: Seq<u8>)
    requires
        name.len() > 0,
        home.len() > 0,
        home.last() != 47,
    ensures
        engine_home_path(None, Some(home)) is None,
        name[0] == '/' ==> engine_home_path(Some(name), Some(home)) == Some(encode_utf8(name))
            && engine_home_path(Some(name), None) == Some(encode_utf8(name)),
        name[0] != '/' ==> engine_home_path(Some(name), Some(home)) == Some(
            home.push(47u8) + encode_utf8(name),
        ) && engine_home_path(Some(name), None) == Some(seq![47u8] + encode_utf8(name)),
{
    law_absolute_name_stands_for_itself(home, name);
    lemma_first_byte(name);
    assert(home + seq![SEPARATOR] + encode_utf8(name) =~= home.push(47u8) + encode_utf8(name));
}

proof fn lemma_first_byte(name: Seq<char>)
    requires
        name.len() > 0,
    ensures
        encode_utf8(name).len() > 0,
        encode_utf8(name)[0] == 47 <==> name[0] == '/',
{
    let u = name[0] as u32;
    char_is_scalar(name[0]);
    char_u32_cast(name[0], u);
    assert(u <= 0x7f ==> leading_byte_width_1(u) == u) by (bit_vector);
    assert(leading_byte_width_2(u) != 47) by (bit_vector);
    assert(leading_byte_width_3(u) != 47) by (bit_vector);
    assert(leading_byte_width_4(u) != 47) by (bit_vector);
    assert(encode_scalar(u)[0] == 47 <==> u == 47);
    assert(encode_utf8(name)[0] == encode_scalar(u)[0]);
}

} // verus!
