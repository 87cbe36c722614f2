//! Settings from the environment.
use vstd::prelude::*;

use vstd::string::StringExecFns;

use crate::text::{
    append_decimal, decimal, decimal_reads_back, decimal_tells_numbers_apart, lemma_decimal_lacks,
    lemma_split_word, parse_unsigned, same_text, split, split_nowhere_else, split_of_two_texts,
    split_trimmed, texts, trimmed, trimmed_pieces, trimmed_pieces_follow_the_separators,
    trimming_leaves_bare_texts, unsigned_value, unsigned_values_are_within,
};

verus! {

/// The value of the first variable called `name`.
pub open spec fn value_of(vars: Seq<(String, String)>, name: Seq<char>) -> Option<Seq<char>>
    decreases vars.len(),
{
    if vars.len() == 0 {
        None
    } else if vars[0].0@ == name {
        Some(vars[0].1@)
    } else {
        value_of(vars.drop_first(), name)
    }
}

/// The environment variables that are set to Unicode text, with their values.
#[derive(Debug)]
pub struct EnvVars {
    pub vars: Vec<(String, String)>,
}

impl EnvVars {
    /// The value of a variable, or `None` where it is not set.
    pub open spec fn value(self, name: Seq<char>) -> Option<Seq<char>> {
        value_of(self.vars@, name)
    }

    /// The names of the variables that the server reads.
    pub fn names() -> (names: Vec<String>)
        ensures
            texts(names@) == seq![
                "PORT"@,
                "MAX_PEERS"@,
                "ALLOWED_ORIGINS"@,
                "CAMERA_DEVICE"@,
                "CAMERA_WIDTH"@,
                "CAMERA_HEIGHT"@,
                "CAMERA_FPS"@,
                "ENCODER_BITRATE"@,
                "ENCODER_THREADS"@,
                "STUN_SERVERS"@,
                "TURN_SERVERS"@,
            ],
    {
        let mut names: Vec<String> = Vec::new();
        names.push("PORT".to_owned());
        names.push("MAX_PEERS".to_owned());
        names.push("ALLOWED_ORIGINS".to_owned());
        names.push("CAMERA_DEVICE".to_owned());
        names.push("CAMERA_WIDTH".to_owned());
        names.push("CAMERA_HEIGHT".to_owned());
        names.push("CAMERA_FPS".to_owned());
        names.push("ENCODER_BITRATE".to_owned());
        names.push("ENCODER_THREADS".to_owned());
        names.push("STUN_SERVERS".to_owned());
        names.push("TURN_SERVERS".to_owned());
        names
    }

    /// The value of a variable, or `None` where it is not set.
    pub fn get(&self, name: &str) -> (value: Option<&str>)
        ensures
            value matches Some(v) ==> self.value(name@) == Some(v@),
            value is None ==> self.value(name@) is None,
            value is None <==> forall|i: int|
                0 <= i < self.vars@.len() ==> (#[trigger] self.vars@[i]).0@ != name@,
            value matches Some(v) ==> exists|i: int|
                0 <= i < self.vars@.len() && (#[trigger] self.vars@[i]).0@ == name@ && self.vars@[i].1@
                    == v@ && forall|j: int| 0 <= j < i ==> (#[trigger] self.vars@[j]).0@ != name@,
    {
        let ghost all = self.vars@;
        let mut i: usize = 0;
        assert(all.skip(0) == all);
        while i < self.vars.len()
            invariant
                i <= self.vars.len(),
                all == self.vars@,
                forall|j: int| 0 <= j < i ==> (#[trigger] self.vars@[j]).0@ != name@,
                value_of(all, name@) == value_of(all.skip(i as int), name@),
            decreases self.vars.len() - i,
        {
            assert(all.skip(i as int)[0] == all[i as int]);
            assert(all.skip(i as int).drop_first() == all.skip(i + 1));
            if same_text(self.vars[i].0.as_str(), name) {
                return Some(self.vars[i].1.as_str());
            }
            i = i + 1;
        }
        None
    }
}

/// Application configuration.
#[derive(Clone, Debug)]
pub struct Config {
    /// HTTP server port (env: `PORT`, default 8080)
    pub port: u16,
    /// Maximum simultaneous peer connections (env: `MAX_PEERS`, default 50)
    pub max_peers: usize,
    /// CORS allowed origins (env: `ALLOWED_ORIGINS`, default localhost)
    pub allowed_origins: Vec<String>,
    /// USB camera device index (env: `CAMERA_DEVICE`, default 0)
    pub camera_device: u32,
    /// Capture/encode width: derived from `CAMERA_DEVICE`, overridable via `CAMERA_WIDTH`
    pub width: u32,
    /// Capture/encode height: derived from `CAMERA_DEVICE`, overridable via `CAMERA_HEIGHT`
    pub height: u32,
    /// Capture frame rate (env: `CAMERA_FPS`, default 30)
    pub fps: u32,
    /// H.264 encoder bitrate in kbps (env: `ENCODER_BITRATE`, default 5000)
    pub encoder_bitrate: u32,
    /// Number of x264 encoder threads (env: `ENCODER_THREADS`, default half of the CPU cores)
    pub encoder_threads: u32,
}

/// What a [`Config`] holds.
pub struct ConfigView {
    pub port: u16,
    pub max_peers: usize,
    pub allowed_origins: Seq<Seq<char>>,
    pub camera_device: u32,
    pub width: u32,
    pub height: u32,
    pub fps: u32,
    pub encoder_bitrate: u32,
    pub encoder_threads: u32,
}

impl View for Config {
    type V = ConfigView;

    open spec fn view(&self) -> ConfigView {
        ConfigView {
            port: self.port,
            max_peers: self.max_peers,
            allowed_origins: texts(self.allowed_origins@),
            camera_device: self.camera_device,
            width: self.width,
            height: self.height,
            fps: self.fps,
            encoder_bitrate: self.encoder_bitrate,
            encoder_threads: self.encoder_threads,
        }
    }
}

/// The number in a variable, or `default` where the variable is unset or holds
/// no number of at most `max`.
pub open spec fn number_in(value: Option<Seq<char>>, max: nat, default: nat) -> nat {
    match value {
        Some(s) => match unsigned_value(s, max) {
            Some(n) => n,
            None => default,
        },
        None => default,
    }
}

/// The origins in a comma-separated list, each trimmed.
pub open spec fn origin_list(list: Seq<char>) -> Seq<Seq<char>> {
    split(list, ',').map_values(|p: Seq<char>| trimmed(p))
}

/// The origins that are allowed where the variable is unset.
pub open spec fn default_origins() -> Seq<char> {
    "http://localhost:8080,http://127.0.0.1:8080"@
}

/// The resolution of a camera. Device 0 (PC / built-in): 1280x720. Device 1
/// and up (USB): 1920x1080.
pub open spec fn native_size(device: u32) -> (u32, u32) {
    if device == 0 {
        (1280, 720)
    } else {
        (1920, 1080)
    }
}

/// Half of the logical CPUs, and at least one.
pub open spec fn half_of_cpus(cpus: usize) -> u32 {
    (if cpus / 2 >= 1 {
        cpus / 2
    } else {
        1
    }) as u32
}

/// The default for the encoder threads is half of the logical CPUs but never
/// zero, on any machine whose half fits a thread count.
pub proof fn default_threads_are_half_of_the_cpus(cpus: usize)
    requires
        cpus / 2 <= u32::MAX,
    ensures
        half_of_cpus(cpus) >= 1,
        half_of_cpus(cpus) == vstd::math::max(1, cpus as int / 2),
{
}

/// The configuration that the environment asks for on a machine with this
/// many logical CPUs.
pub open spec fn configured(vars: EnvVars, cpus: usize) -> ConfigView {
    let device = number_in(vars.value("CAMERA_DEVICE"@), u32::MAX as nat, 0) as u32;
    let size = native_size(device);
    ConfigView {
        port: number_in(vars.value("PORT"@), u16::MAX as nat, 8080) as u16,
        max_peers: number_in(vars.value("MAX_PEERS"@), usize::MAX as nat, 50) as usize,
        allowed_origins: match vars.value("ALLOWED_ORIGINS"@) {
            Some(list) => origin_list(list),
            None => origin_list(default_origins()),
        },
        camera_device: device,
        width: number_in(vars.value("CAMERA_WIDTH"@), u32::MAX as nat, size.0 as nat) as u32,
        height: number_in(vars.value("CAMERA_HEIGHT"@), u32::MAX as nat, size.1 as nat) as u32,
        fps: number_in(vars.value("CAMERA_FPS"@), u32::MAX as nat, 30) as u32,
        encoder_bitrate: number_in(vars.value("ENCODER_BITRATE"@), u32::MAX as nat, 5000) as u32,
        encoder_threads: number_in(
            vars.value("ENCODER_THREADS"@),
            u32::MAX as nat,
            half_of_cpus(cpus) as nat,
        ) as u32,
    }
}

/// The line that reports every number of the configuration.
pub open spec fn summary_line(c: ConfigView) -> Seq<char> {
    "Config: port="@ + decimal(c.port as nat) + " max_peers="@ + decimal(c.max_peers as nat)
        + " device="@ + decimal(c.camera_device as nat) + " resolution="@ + decimal(c.width as nat)
        + "x"@ + decimal(c.height as nat) + "@"@ + decimal(c.fps as nat) + "fps bitrate="@
        + decimal(c.encoder_bitrate as nat) + "kbps enc_threads="@ + decimal(
        c.encoder_threads as nat,
    )
}

/// The text that std's `Debug` gives a list of strings.
pub uninterp spec fn debug_text(list: Seq<Seq<char>>) -> Seq<char>;

/// Formats a list of strings with std's `Debug`. The claim is only that the
/// text is a function of the strings.
#[verifier::external_body]
fn debug_strings(list: &Vec<String>) -> (text: String)
    ensures
        text@ == debug_text(texts(list@)),
{
    format!("{:?}", list)
}

/// Calls `num_cpus::get`, which promises at least one logical CPU. How many
/// there are is up to the machine.
#[verifier::external_body]
pub(crate) fn logical_cpus() -> (cpus: usize)
    ensures
        cpus >= 1,
{
    num_cpus::get()
}

fn number(value: Option<&str>, max: u64, default: u64) -> (n: u64)
    requires
        default <= max,
    ensures
        n == number_in(
            match value {
                Some(s) => Some(s@),
                None => None,
            },
            max as nat,
            default as nat,
        ),
        n <= max,
{
    match value {
        Some(s) => match parse_unsigned(s, max) {
            Some(n) => n,
            None => default,
        },
        None => default,
    }
}

/// The default number of encoder threads: half of the logical CPUs, so that
/// the server's own threads keep some, and at least one.
pub fn default_encoder_threads(cpus: usize) -> (threads: u32)
    ensures
        threads == half_of_cpus(cpus),
        cpus / 2 <= u32::MAX ==> threads == vstd::math::max(1, cpus as int / 2),
{
    let half: usize = cpus / 2;
    let threads: usize = if half >= 1 {
        half
    } else {
        1
    };
    #[verifier::truncate]
    (threads as u32)
}

impl Config {
    /// The configuration for these variables and this many logical CPUs.
    pub fn resolve(vars: &EnvVars, cpus: usize) -> (config: Config)
        ensures
            config@ == configured(*vars, cpus),
    {
        let allowed_origins = match vars.get("ALLOWED_ORIGINS") {
            Some(list) => split_trimmed(list, ','),
            None => split_trimmed("http://localhost:8080,http://127.0.0.1:8080", ','),
        };
        let camera_device: u32 = number(vars.get("CAMERA_DEVICE"), u32::MAX as u64, 0) as u32;
        let (default_width, default_height): (u32, u32) = if camera_device == 0 {
            (1280, 720)
        } else {
            (1920, 1080)
        };
        let default_threads: u32 = default_encoder_threads(cpus);
        Config {
            port: number(vars.get("PORT"), u16::MAX as u64, 8080) as u16,
            max_peers: number(vars.get("MAX_PEERS"), usize::MAX as u64, 50) as usize,
            allowed_origins,
            camera_device,
            width: number(vars.get("CAMERA_WIDTH"), u32::MAX as u64, default_width as u64) as u32,
            height: number(vars.get("CAMERA_HEIGHT"), u32::MAX as u64, default_height as u64) as u32,
            fps: number(vars.get("CAMERA_FPS"), u32::MAX as u64, 30) as u32,
            encoder_bitrate: number(vars.get("ENCODER_BITRATE"), u32::MAX as u64, 5000) as u32,
            encoder_threads: number(
                vars.get("ENCODER_THREADS"),
                u32::MAX as u64,
                default_threads as u64,
            ) as u32,
        }
    }

    /// The configuration from the environment, with defaults for whatever is
    /// unset or unreadable. The default for the encoder threads goes by the
    /// CPUs of this machine.
    pub fn from_env(vars: &EnvVars) -> (config: Config)
        ensures
            exists|cpus: usize| cpus >= 1 && config@ == configured(*vars, cpus),
            vars.value("ENCODER_THREADS"@) matches Some(s) && unsigned_value(
                s,
                u32::MAX as nat,
            ) is Some ==> config@ == configured(*vars, 1),
    {
        let cpus = logical_cpus();
        Config::resolve(vars, cpus)
    }

    /// The lines that report the resolved configuration.
    pub fn log(&self) -> (lines: Vec<String>)
        ensures
            texts(lines@) == seq![
                summary_line(self@),
                "CORS allowed origins: "@ + debug_text(self@.allowed_origins),
            ],
    {
        let mut summary = "Config: port=".to_owned();
        append_decimal(&mut summary, self.port as u64);
        summary.append(" max_peers=");
        append_decimal(&mut summary, self.max_peers as u64);
        summary.append(" device=");
        append_decimal(&mut summary, self.camera_device as u64);
        summary.append(" resolution=");
        append_decimal(&mut summary, self.width as u64);
        summary.append("x");
        append_decimal(&mut summary, self.height as u64);
        summary.append("@");
        append_decimal(&mut summary, self.fps as u64);
        summary.append("fps bitrate=");
        append_decimal(&mut summary, self.encoder_bitrate as u64);
        summary.append("kbps enc_threads=");
        append_decimal(&mut summary, self.encoder_threads as u64);
        let mut origins = "CORS allowed origins: ".to_owned();
        origins.append(debug_strings(&self.allowed_origins).as_str());
        let mut lines: Vec<String> = Vec::new();
        lines.push(summary);
        lines.push(origins);
        lines
    }
}

/// The words of `Config: port=`.
proof fn lemma_port_words()
    ensures
        split("Config: port="@, ' ') == seq![
            "Config:"@,
            "port="@,
        ],
{
    reveal_strlit("Config: port=");
    reveal_strlit("Config:");
    reveal_strlit("port=");
    split_nowhere_else("port="@, ' ');
    lemma_split_word("Config:"@, "port="@, ' ');
    assert("Config: port="@ =~= "Config:"@.push(' ') + "port="@);
    assert(split("Config: port="@, ' ') =~= seq![
        "Config:"@,
        "port="@,
    ]);
}

/// The words of ` max_peers=`.
proof fn lemma_peers_words()
    ensures
        split(" max_peers="@, ' ') == seq![
            Seq::<char>::empty(),
            "max_peers="@,
        ],
{
    reveal_strlit(" max_peers=");
    reveal_strlit("max_peers=");
    split_nowhere_else("max_peers="@, ' ');
    lemma_split_word(Seq::<char>::empty(), "max_peers="@, ' ');
    assert(" max_peers="@ =~= Seq::<char>::empty().push(' ') + "max_peers="@);
    assert(split(" max_peers="@, ' ') =~= seq![
        Seq::<char>::empty(),
        "max_peers="@,
    ]);
}

/// The words of ` device=`.
proof fn lemma_device_words()
    ensures
        split(" device="@, ' ') == seq![
            Seq::<char>::empty(),
            "device="@,
        ],
{
    reveal_strlit(" device=");
    reveal_strlit("device=");
    split_nowhere_else("device="@, ' ');
    lemma_split_word(Seq::<char>::empty(), "device="@, ' ');
    assert(" device="@ =~= Seq::<char>::empty().push(' ') + "device="@);
    assert(split(" device="@, ' ') =~= seq![
        Seq::<char>::empty(),
        "device="@,
    ]);
}

/// The words of ` resolution=`.
proof fn lemma_size_words()
    ensures
        split(" resolution="@, ' ') == seq![
            Seq::<char>::empty(),
            "resolution="@,
        ],
{
    reveal_strlit(" resolution=");
    reveal_strlit("resolution=");
    split_nowhere_else("resolution="@, ' ');
    lemma_split_word(Seq::<char>::empty(), "resolution="@, ' ');
    assert(" resolution="@ =~= Seq::<char>::empty().push(' ') + "resolution="@);
    assert(split(" resolution="@, ' ') =~= seq![
        Seq::<char>::empty(),
        "resolution="@,
    ]);
}

/// The words of `x`.
proof fn lemma_times_words()
    ensures
        split("x"@, ' ') == seq![
            "x"@,
        ],
{
    reveal_strlit("x");
    split_nowhere_else("x"@, ' ');
    assert(split("x"@, ' ') =~= seq![
        "x"@,
    ]);
}

/// The words of `@`.
proof fn lemma_at_words()
    ensures
        split("@"@, ' ') == seq![
            "@"@,
        ],
{
    reveal_strlit("@");
    split_nowhere_else("@"@, ' ');
    assert(split("@"@, ' ') =~= seq![
        "@"@,
    ]);
}

/// The words of `fps bitrate=`.
proof fn lemma_bitrate_words()
    ensures
        split("fps bitrate="@, ' ') == seq![
            "fps"@,
            "bitrate="@,
        ],
{
    reveal_strlit("fps bitrate=");
    reveal_strlit("fps");
    reveal_strlit("bitrate=");
    split_nowhere_else("bitrate="@, ' ');
    lemma_split_word("fps"@, "bitrate="@, ' ');
    assert("fps bitrate="@ =~= "fps"@.push(' ') + "bitrate="@);
    assert(split("fps bitrate="@, ' ') =~= seq![
        "fps"@,
        "bitrate="@,
    ]);
}

/// The words of `kbps enc_threads=`.
proof fn lemma_threads_words()
    ensures
        split("kbps enc_threads="@, ' ') == seq![
            "kbps"@,
            "enc_threads="@,
        ],
{
    reveal_strlit("kbps enc_threads=");
    reveal_strlit("kbps");
    reveal_strlit("enc_threads=");
    split_nowhere_else("enc_threads="@, ' ');
    lemma_split_word("kbps"@, "enc_threads="@, ' ');
    assert("kbps enc_threads="@ =~= "kbps"@.push(' ') + "enc_threads="@);
    assert(split("kbps enc_threads="@, ' ') =~= seq![
        "kbps"@,
        "enc_threads="@,
    ]);
}

/// The summary, word by word: each number of the configuration stands under its
/// own name.
pub proof fn summary_names_every_number(c: ConfigView)
    ensures
        split(summary_line(c), ' ') == seq![
            "Config:"@,
            "port="@ + decimal(c.port as nat),
            "max_peers="@ + decimal(c.max_peers as nat),
            "device="@ + decimal(c.camera_device as nat),
            "resolution="@ + decimal(c.width as nat) + "x"@ + decimal(c.height as nat) + "@"@ + decimal(c.fps as nat) + "fps"@,
            "bitrate="@ + decimal(c.encoder_bitrate as nat) + "kbps"@,
            "enc_threads="@ + decimal(c.encoder_threads as nat),
        ],
{
    lemma_port_words();
    lemma_decimal_lacks(c.port as nat, ' ');
    split_nowhere_else(decimal(c.port as nat), ' ');
    let t0 = "Config: port="@;
    split_of_two_texts(t0, decimal(c.port as nat), ' ');
    let t1 = t0 + decimal(c.port as nat);
    assert(split(t1, ' ') =~= seq![
        "Config:"@,
        "port="@ + decimal(c.port as nat),
    ]);
    lemma_peers_words();
    split_of_two_texts(t1, " max_peers="@, ' ');
    let t2 = t1 + " max_peers="@;
    assert(("port="@ + decimal(c.port as nat)) + Seq::<char>::empty() =~= "port="@ + decimal(c.port as nat));
    assert(split(t2, ' ') =~= seq![
        "Config:"@,
        "port="@ + decimal(c.port as nat),
        "max_peers="@,
    ]);
    lemma_decimal_lacks(c.max_peers as nat, ' ');
    split_nowhere_else(decimal(c.max_peers as nat), ' ');
    split_of_two_texts(t2, decimal(c.max_peers as nat), ' ');
    let t3 = t2 + decimal(c.max_peers as nat);
    assert(split(t3, ' ') =~= seq![
        "Config:"@,
        "port="@ + decimal(c.port as nat),
        "max_peers="@ + decimal(c.max_peers as nat),
    ]);
    lemma_device_words();
    split_of_two_texts(t3, " device="@, ' ');
    let t4 = t3 + " device="@;
    assert(("max_peers="@ + decimal(c.max_peers as nat)) + Seq::<char>::empty() =~= "max_peers="@ + decimal(c.max_peers as nat));
    assert(split(t4, ' ') =~= seq![
        "Config:"@,
        "port="@ + decimal(c.port as nat),
        "max_peers="@ + decimal(c.max_peers as nat),
        "device="@,
    ]);
    lemma_decimal_lacks(c.camera_device as nat, ' ');
    split_nowhere_else(decimal(c.camera_device as nat), ' ');
    split_of_two_texts(t4, decimal(c.camera_device as nat), ' ');
    let t5 = t4 + decimal(c.camera_device as nat);
    assert(split(t5, ' ') =~= seq![
        "Config:"@,
        "port="@ + decimal(c.port as nat),
        "max_peers="@ + decimal(c.max_peers as nat),
        "device="@ + decimal(c.camera_device as nat),
    ]);
    lemma_size_words();
    split_of_two_texts(t5, " resolution="@, ' ');
    let t6 = t5 + " resolution="@;
    assert(("device="@ + decimal(c.camera_device as nat)) + Seq::<char>::empty() =~= "device="@ + decimal(c.camera_device as nat));
    assert(split(t6, ' ') =~= seq![
        "Config:"@,
        "port="@ + decimal(c.port as nat),
        "max_peers="@ + decimal(c.max_peers as nat),
        "device="@ + decimal(c.camera_device as nat),
        "resolution="@,
    ]);
    lemma_decimal_lacks(c.width as nat, ' ');
    split_nowhere_else(decimal(c.width as nat), ' ');
    split_of_two_texts(t6, decimal(c.width as nat), ' ');
    let t7 = t6 + decimal(c.width as nat);
    assert(split(t7, ' ') =~= seq![
        "Config:"@,
        "port="@ + decimal(c.port as nat),
        "max_peers="@ + decimal(c.max_peers as nat),
        "device="@ + decimal(c.camera_device as nat),
        "resolution="@ + decimal(c.width as nat),
    ]);
    lemma_times_words();
    split_of_two_texts(t7, "x"@, ' ');
    let t8 = t7 + "x"@;
    assert(split(t8, ' ') =~= seq![
        "Config:"@,
        "port="@ + decimal(c.port as nat),
        "max_peers="@ + decimal(c.max_peers as nat),
        "device="@ + decimal(c.camera_device as nat),
        "resolution="@ + decimal(c.width as nat) + "x"@,
    ]);
    lemma_decimal_lacks(c.height as nat, ' ');
    split_nowhere_else(decimal(c.height as nat), ' ');
    split_of_two_texts(t8, decimal(c.height as nat), ' ');
    let t9 = t8 + decimal(c.height as nat);
    assert(split(t9, ' ') =~= seq![
        "Config:"@,
        "port="@ + decimal(c.port as nat),
        "max_peers="@ + decimal(c.max_peers as nat),
        "device="@ + decimal(c.camera_device as nat),
        "resolution="@ + decimal(c.width as nat) + "x"@ + decimal(c.height as nat),
    ]);
    lemma_at_words();
    split_of_two_texts(t9, "@"@, ' ');
    let t10 = t9 + "@"@;
    assert(split(t10, ' ') =~= seq![
        "Config:"@,
        "port="@ + decimal(c.port as nat),
        "max_peers="@ + decimal(c.max_peers as nat),
        "device="@ + decimal(c.camera_device as nat),
        "resolution="@ + decimal(c.width as nat) + "x"@ + decimal(c.height as nat) + "@"@,
    ]);
    lemma_decimal_lacks(c.fps as nat, ' ');
    split_nowhere_else(decimal(c.fps as nat), ' ');
    split_of_two_texts(t10, decimal(c.fps as nat), ' ');
    let t11 = t10 + decimal(c.fps as nat);
    assert(split(t11, ' ') =~= seq![
        "Config:"@,
        "port="@ + decimal(c.port as nat),
        "max_peers="@ + decimal(c.max_peers as nat),
        "device="@ + decimal(c.camera_device as nat),
        "resolution="@ + decimal(c.width as nat) + "x"@ + decimal(c.height as nat) + "@"@ + decimal(c.fps as nat),
    ]);
    lemma_bitrate_words();
    split_of_two_texts(t11, "fps bitrate="@, ' ');
    let t12 = t11 + "fps bitrate="@;
    assert(split(t12, ' ') =~= seq![
        "Config:"@,
        "port="@ + decimal(c.port as nat),
        "max_peers="@ + decimal(c.max_peers as nat),
        "device="@ + decimal(c.camera_device as nat),
        "resolution="@ + decimal(c.width as nat) + "x"@ + decimal(c.height as nat) + "@"@ + decimal(c.fps as nat) + "fps"@,
        "bitrate="@,
    ]);
    lemma_decimal_lacks(c.encoder_bitrate as nat, ' ');
    split_nowhere_else(decimal(c.encoder_bitrate as nat), ' ');
    split_of_two_texts(t12, decimal(c.encoder_bitrate as nat), ' ');
    let t13 = t12 + decimal(c.encoder_bitrate as nat);
    assert(split(t13, ' ') =~= seq![
        "Config:"@,
        "port="@ + decimal(c.port as nat),
        "max_peers="@ + decimal(c.max_peers as nat),
        "device="@ + decimal(c.camera_device as nat),
        "resolution="@ + decimal(c.width as nat) + "x"@ + decimal(c.height as nat) + "@"@ + decimal(c.fps as nat) + "fps"@,
        "bitrate="@ + decimal(c.encoder_bitrate as nat),
    ]);
    lemma_threads_words();
    split_of_two_texts(t13, "kbps enc_threads="@, ' ');
    let t14 = t13 + "kbps enc_threads="@;
    assert(split(t14, ' ') =~= seq![
        "Config:"@,
        "port="@ + decimal(c.port as nat),
        "max_peers="@ + decimal(c.max_peers as nat),
        "device="@ + decimal(c.camera_device as nat),
        "resolution="@ + decimal(c.width as nat) + "x"@ + decimal(c.height as nat) + "@"@ + decimal(c.fps as nat) + "fps"@,
        "bitrate="@ + decimal(c.encoder_bitrate as nat) + "kbps"@,
        "enc_threads="@,
    ]);
    lemma_decimal_lacks(c.encoder_threads as nat, ' ');
    split_nowhere_else(decimal(c.encoder_threads as nat), ' ');
    split_of_two_texts(t14, decimal(c.encoder_threads as nat), ' ');
    let t15 = t14 + decimal(c.encoder_threads as nat);
    assert(split(t15, ' ') =~= seq![
        "Config:"@,
        "port="@ + decimal(c.port as nat),
        "max_peers="@ + decimal(c.max_peers as nat),
        "device="@ + decimal(c.camera_device as nat),
        "resolution="@ + decimal(c.width as nat) + "x"@ + decimal(c.height as nat) + "@"@ + decimal(c.fps as nat) + "fps"@,
        "bitrate="@ + decimal(c.encoder_bitrate as nat) + "kbps"@,
        "enc_threads="@ + decimal(c.encoder_threads as nat),
    ]);
}

/// Configurations that differ in their port, limit, device or threads never have
/// the same summary.
pub proof fn summaries_tell_port_and_limit_apart(a: ConfigView, b: ConfigView)
    requires
        summary_line(a) == summary_line(b),
    ensures
        a.port == b.port,
        a.max_peers == b.max_peers,
        a.camera_device == b.camera_device,
        a.encoder_threads == b.encoder_threads,
{
    summary_names_every_number(a);
    summary_names_every_number(b);
    let left = split(summary_line(a), ' ');
    let right = split(summary_line(b), ' ');
    assert(left[1] == right[1] && left[2] == right[2] && left[3] == right[3] && left[6]
        == right[6]);
    lemma_same_tail("port="@, decimal(a.port as nat), decimal(b.port as nat));
    lemma_same_tail("max_peers="@, decimal(a.max_peers as nat), decimal(b.max_peers as nat));
    lemma_same_tail("device="@, decimal(a.camera_device as nat), decimal(b.camera_device as nat));
    lemma_same_tail(
        "enc_threads="@,
        decimal(a.encoder_threads as nat),
        decimal(b.encoder_threads as nat),
    );
    decimal_tells_numbers_apart(a.port as nat, b.port as nat);
    decimal_tells_numbers_apart(a.max_peers as nat, b.max_peers as nat);
    decimal_tells_numbers_apart(a.camera_device as nat, b.camera_device as nat);
    decimal_tells_numbers_apart(a.encoder_threads as nat, b.encoder_threads as nat);
}

proof fn lemma_same_tail(front: Seq<char>, a: Seq<char>, b: Seq<char>)
    requires
        front + a == front + b,
    ensures
        a == b,
{
    assert((front + a).skip(front.len() as int) =~= a);
    assert((front + b).skip(front.len() as int) =~= b);
}

/// A variable has the value of the first entry with its name, and no value where
/// there is no such entry.
pub proof fn first_entry_gives_the_value(vars: Seq<(String, String)>, name: Seq<char>)
    ensures
        forall|i: int|
            0 <= i < vars.len() && (#[trigger] vars[i]).0@ == name && (forall|j: int|
                0 <= j < i ==> (#[trigger] vars[j]).0@ != name) ==> value_of(vars, name) == Some(
                vars[i].1@,
            ),
        value_of(vars, name) is None <==> forall|i: int|
            0 <= i < vars.len() ==> (#[trigger] vars[i]).0@ != name,
    decreases vars.len(),
{
    if vars.len() > 0 && vars[0].0@ != name {
        let rest = vars.drop_first();
        first_entry_gives_the_value(rest, name);
        assert forall|i: int|
            0 <= i < vars.len() && (#[trigger] vars[i]).0@ == name && (forall|j: int|
                0 <= j < i ==> (#[trigger] vars[j]).0@ != name) implies value_of(vars, name)
            == Some(vars[i].1@) by {
            assert(rest[i - 1] == vars[i]);
            assert forall|j: int| 0 <= j < i - 1 implies (#[trigger] rest[j]).0@ != name by {
                assert(rest[j] == vars[j + 1]);
            }
        }
        if value_of(vars, name) is None {
            assert forall|i: int| 0 <= i < vars.len() implies (#[trigger] vars[i]).0@ != name by {
                if i > 0 {
                    assert(rest[i - 1] == vars[i]);
                }
            }
        } else if forall|i: int| 0 <= i < vars.len() ==> (#[trigger] vars[i]).0@ != name {
            assert forall|i: int| 0 <= i < rest.len() implies (#[trigger] rest[i]).0@ != name by {
                assert(rest[i] == vars[i + 1]);
            }
        }
    } else if vars.len() > 0 {
        assert(vars[0].0@ == name);
    }
}

/// What is known of a configuration is what its fields hold.
pub proof fn config_is_its_fields(config: Config)
    ensures
        config@.port == config.port,
        config@.max_peers == config.max_peers,
        config@.allowed_origins.len() == config.allowed_origins@.len(),
        forall|i: int|
            0 <= i < config.allowed_origins@.len() ==> #[trigger] config@.allowed_origins[i]
                == config.allowed_origins@[i]@,
        config@.camera_device == config.camera_device,
        config@.width == config.width,
        config@.height == config.height,
        config@.fps == config.fps,
        config@.encoder_bitrate == config.encoder_bitrate,
        config@.encoder_threads == config.encoder_threads,
{
}

/// A number in a variable is read as it is; where there is none, or none within
/// the limit, the default stands.
pub proof fn readable_numbers_count(s: Seq<char>, max: nat, default: nat)
    ensures
        number_in(None, max, default) == default,
        unsigned_value(s, max) is None ==> number_in(Some(s), max, default) == default,
        unsigned_value(s, max) matches Some(n) ==> number_in(Some(s), max, default) == n,
{
}

/// An empty environment gives the documented defaults: port 8080, 50 peers,
/// device 0 at 1280x720 and 30 frames per second, 5000 kbps, half of the CPUs.
pub proof fn unset_variables_give_the_defaults(vars: EnvVars, cpus: usize)
    ensures
        vars.value("PORT"@) is None ==> configured(vars, cpus).port == 8080,
        vars.value("MAX_PEERS"@) is None ==> configured(vars, cpus).max_peers == 50,
        vars.value("CAMERA_DEVICE"@) is None ==> configured(vars, cpus).camera_device == 0,
        vars.value("CAMERA_FPS"@) is None ==> configured(vars, cpus).fps == 30,
        vars.value("ENCODER_BITRATE"@) is None ==> configured(vars, cpus).encoder_bitrate == 5000,
        vars.value("ENCODER_THREADS"@) is None && cpus / 2 <= u32::MAX ==> configured(
            vars,
            cpus,
        ).encoder_threads == vstd::math::max(1, cpus as int / 2),
        vars.value("CAMERA_WIDTH"@) is None ==> configured(vars, cpus).width == (if configured(
            vars,
            cpus,
        ).camera_device == 0 {
            1280
        } else {
            1920u32
        }),
        vars.value("CAMERA_HEIGHT"@) is None ==> configured(vars, cpus).height == (if configured(
            vars,
            cpus,
        ).camera_device == 0 {
            720
        } else {
            1080u32
        }),
        vars.value("ALLOWED_ORIGINS"@) is None ==> configured(vars, cpus).allowed_origins == seq![
            "http://localhost:8080"@,
            "http://127.0.0.1:8080"@,
        ],
{
    let local = "http://localhost:8080"@;
    let loopback = "http://127.0.0.1:8080"@;
    reveal_strlit("http://localhost:8080");
    reveal_strlit("http://127.0.0.1:8080");
    reveal_strlit("http://localhost:8080,http://127.0.0.1:8080");
    assert(default_origins() =~= local.push(',') + loopback);
    assert(!local.contains(','));
    assert(!loopback.contains(','));
    trimmed_pieces_follow_the_separators(local, loopback, ',');
    trimmed_pieces_follow_the_separators(loopback, loopback, ',');
    trimming_leaves_bare_texts(local);
    trimming_leaves_bare_texts(loopback);
    assert(origin_list(default_origins()) =~= seq![local, loopback]);
}

/// A number that a variable spells out is the setting, for every number that
/// fits it.
pub proof fn written_numbers_are_the_settings(vars: EnvVars, cpus: usize, n: nat)
    ensures
        vars.value("PORT"@) == Some(decimal(n)) && n <= u16::MAX ==> configured(vars, cpus).port
            == n,
        vars.value("MAX_PEERS"@) == Some(decimal(n)) && n <= usize::MAX ==> configured(
            vars,
            cpus,
        ).max_peers == n,
        vars.value("CAMERA_DEVICE"@) == Some(decimal(n)) && n <= u32::MAX ==> configured(
            vars,
            cpus,
        ).camera_device == n,
        vars.value("CAMERA_WIDTH"@) == Some(decimal(n)) && n <= u32::MAX ==> configured(
            vars,
            cpus,
        ).width == n,
        vars.value("CAMERA_HEIGHT"@) == Some(decimal(n)) && n <= u32::MAX ==> configured(
            vars,
            cpus,
        ).height == n,
        vars.value("CAMERA_FPS"@) == Some(decimal(n)) && n <= u32::MAX ==> configured(
            vars,
            cpus,
        ).fps == n,
        vars.value("ENCODER_BITRATE"@) == Some(decimal(n)) && n <= u32::MAX ==> configured(
            vars,
            cpus,
        ).encoder_bitrate == n,
        vars.value("ENCODER_THREADS"@) == Some(decimal(n)) && n <= u32::MAX ==> configured(
            vars,
            cpus,
        ).encoder_threads == n,
{
    if n <= usize::MAX {
        decimal_reads_back(n, usize::MAX as nat);
    }
    if n <= u32::MAX {
        decimal_reads_back(n, u32::MAX as nat);
    }
    if n <= u16::MAX {
        decimal_reads_back(n, u16::MAX as nat);
    }
}

/// However a variable spells its number, the setting is that number; a variable
/// that spells none that fits leaves the setting at its default.
pub proof fn settings_follow_their_variables(vars: EnvVars, cpus: usize, s: Seq<char>)
    ensures
        ({
            let c = configured(vars, cpus);
            &&& vars.value("PORT"@) == Some(s) ==> c.port == (match unsigned_value(s, 65535) {
                Some(n) => n as int,
                None => 8080,
            })
            &&& vars.value("MAX_PEERS"@) == Some(s) ==> c.max_peers == (match unsigned_value(
                s,
                usize::MAX as nat,
            ) {
                Some(n) => n as int,
                None => 50,
            })
            &&& vars.value("CAMERA_DEVICE"@) == Some(s) ==> c.camera_device == (
            match unsigned_value(s, 0xffff_ffff) {
                Some(n) => n as int,
                None => 0,
            })
            &&& vars.value("CAMERA_WIDTH"@) == Some(s) ==> c.width == (match unsigned_value(
                s,
                0xffff_ffff,
            ) {
                Some(n) => n as int,
                None => if c.camera_device == 0 {
                    1280
                } else {
                    1920
                },
            })
            &&& vars.value("CAMERA_HEIGHT"@) == Some(s) ==> c.height == (match unsigned_value(
                s,
                0xffff_ffff,
            ) {
                Some(n) => n as int,
                None => if c.camera_device == 0 {
                    720
                } else {
                    1080
                },
            })
            &&& vars.value("CAMERA_FPS"@) == Some(s) ==> c.fps == (match unsigned_value(
                s,
                0xffff_ffff,
            ) {
                Some(n) => n as int,
                None => 30,
            })
            &&& vars.value("ENCODER_BITRATE"@) == Some(s) ==> c.encoder_bitrate == (
            match unsigned_value(s, 0xffff_ffff) {
                Some(n) => n as int,
                None => 5000,
            })
            &&& vars.value("ENCODER_THREADS"@) == Some(s) && cpus / 2 <= u32::MAX
                ==> c.encoder_threads == (match unsigned_value(s, 0xffff_ffff) {
                Some(n) => n as int,
                None => vstd::math::max(1, cpus as int / 2),
            })
            &&& vars.value("ALLOWED_ORIGINS"@) == Some(s) ==> c.allowed_origins == trimmed_pieces(
                s,
                ',',
            )
        }),
{
    let max16 = 65535nat;
    let max32 = 0xffff_ffffnat;
    unsigned_values_are_within(s, max16);
    unsigned_values_are_within(s, max32);
    unsigned_values_are_within(s, usize::MAX as nat);
}

} // verus!
