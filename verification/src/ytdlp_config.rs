//! The extra command-line arguments passed to every downloader run: the
//! YouTube player clients, the PO-token provider and the cookies file.
use vstd::prelude::*;
use vstd::utf8::{valid_utf8, decode_utf8};
use crate::text::{join, string_views, join_strings, owned, concat2};
use base64::Engine;
use std::io::Read;

verus! {

broadcast use vstd::string::group_string_axioms;

/// Player clients and formats handed to the YouTube extractor.
pub struct YoutubeClientArgs {
    pub player_client: Vec<String>,
    pub formats: Vec<String>,
}

/// The address of the PO-token provider.
pub struct PotProviderArgs {
    pub base_url: Vec<String>,
}

/// The player clients used for YouTube.
pub open spec fn default_player_clients() -> Seq<Seq<char>> {
    seq!["tv"@, "web_safari"@, "web"@, "android_vr"@]
}

/// The formats option used for YouTube.
pub open spec fn default_formats() -> Seq<Seq<char>> {
    seq!["missing_pot"@]
}

/// The YouTube extractor settings: clients `tv`, `web_safari`, `web`,
/// `android_vr`; formats `missing_pot`.
pub fn youtube_client_extractor_tags() -> (r: YoutubeClientArgs)
    ensures
        string_views(r.player_client@) == default_player_clients(),
        string_views(r.formats@) == default_formats(),
{
    let mut player_client: Vec<String> = Vec::new();
    player_client.push(owned("tv"));
    player_client.push(owned("web_safari"));
    player_client.push(owned("web"));
    player_client.push(owned("android_vr"));
    let mut formats: Vec<String> = Vec::new();
    formats.push(owned("missing_pot"));
    let r = YoutubeClientArgs { player_client, formats };
    assert(string_views(r.player_client@) =~= default_player_clients());
    assert(string_views(r.formats@) =~= default_formats());
    r
}

/// The extractor argument for the YouTube settings.
pub open spec fn youtube_arg(player_client: Seq<Seq<char>>, formats: Seq<Seq<char>>) -> Seq<char> {
    "youtube:player_client="@ + join(player_client, ","@) + ";formats="@ + join(formats, ","@)
}

/// The extractor argument for the PO-token provider.
pub open spec fn pot_arg(base_url: Seq<Seq<char>>) -> Seq<char> {
    "youtubepot-bgutilhttp:base_url="@ + join(base_url, ","@)
}

impl YoutubeClientArgs {
    /// `youtube:player_client=<clients joined by ,>;formats=<formats joined by ,>`.
    pub fn to_extractor_arg_string(&self) -> (r: String)
        ensures
            r@ == youtube_arg(string_views(self.player_client@), string_views(self.formats@)),
    {
        let mut r = owned("youtube:player_client=");
        let clients = join_strings(&self.player_client, ",");
        r.append(clients.as_str());
        r.append(";formats=");
        let formats = join_strings(&self.formats, ",");
        r.append(formats.as_str());
        r
    }
}

impl PotProviderArgs {
    /// `youtubepot-bgutilhttp:base_url=<urls joined by ,>`.
    pub fn to_extractor_arg_string(&self) -> (r: String)
        ensures
            r@ == pot_arg(string_views(self.base_url@)),
    {
        let urls = join_strings(&self.base_url, ",");
        concat2("youtubepot-bgutilhttp:base_url=", urls.as_str())
    }
}

/// The PO-token provider settings when a provider address is configured
/// (the `POT_PROVIDER_URL` setting, whatever its value).
pub fn pot_provider_extractor_tags(provider_url: Option<String>) -> (r: Option<PotProviderArgs>)
    ensures
        provider_url is None ==> r is None,
        provider_url matches Some(u) ==> r matches Some(a) && string_views(a.base_url@) == seq![u@],
{
    match provider_url {
        Some(u) => {
            let mut base_url: Vec<String> = Vec::new();
            base_url.push(u);
            let a = PotProviderArgs { base_url };
            assert(string_views(a.base_url@) =~= seq![a.base_url@[0]@]);
            Some(a)
        },
        None => None,
    }
}

/// The arguments that every downloader run gets: the YouTube extractor
/// settings, then the PO-token provider when one is configured, then the
/// cookies file when one is available.
pub open spec fn base_args_spec(provider_url: Option<Seq<char>>, cookies_path: Option<Seq<char>>) -> Seq<Seq<char>> {
    seq!["--extractor-args"@, youtube_arg(default_player_clients(), default_formats())]
        + match provider_url {
        Some(u) => seq!["--extractor-args"@, pot_arg(seq![u])],
        None => Seq::empty(),
    } + match cookies_path {
        Some(p) => seq!["--cookies"@, p],
        None => Seq::empty(),
    }
}

/// The view of an optional string.
pub open spec fn opt_view(o: Option<String>) -> Option<Seq<char>> {
    match o {
        Some(s) => Some(s@),
        None => None,
    }
}

/// The arguments that every downloader run gets, given the configured PO-token
/// provider address and the path of the cookies file, if any.
pub fn base_ydl_cli_args(provider_url: Option<String>, cookies_path: Option<String>) -> (r: Vec<String>)
    ensures
        string_views(r@) == base_args_spec(opt_view(provider_url), opt_view(cookies_path)),
{
    let ghost pu = opt_view(provider_url);
    let ghost cp = opt_view(cookies_path);
    let mut args: Vec<String> = Vec::new();
    let youtube_args = youtube_client_extractor_tags();
    args.push(owned("--extractor-args"));
    args.push(youtube_args.to_extractor_arg_string());
    assert(string_views(args@) =~= seq!["--extractor-args"@, youtube_arg(default_player_clients(), default_formats())]);
    let ghost first = string_views(args@);
    if let Some(pot_args) = pot_provider_extractor_tags(provider_url) {
        args.push(owned("--extractor-args"));
        args.push(pot_args.to_extractor_arg_string());
    }
    let ghost second = string_views(args@);
    assert(second =~= first + match pu {
        Some(u) => seq!["--extractor-args"@, pot_arg(seq![u])],
        None => Seq::<Seq<char>>::empty(),
    });
    if let Some(path) = cookies_path {
        args.push(owned("--cookies"));
        args.push(path);
    }
    assert(string_views(args@) =~= second + match cp {
        Some(p) => seq!["--cookies"@, p],
        None => Seq::<Seq<char>>::empty(),
    });
    args
}

// ---------------------------------------------------------------------------
// Cookies
// ---------------------------------------------------------------------------

/// Name for what `base64::engine::general_purpose::STANDARD.decode` gives for
/// a text: the decoded bytes, or nothing when the text is not accepted.
pub uninterp spec fn base64_decoded(text: Seq<char>) -> Option<Seq<u8>>;

/// Name for what a `flate2::read::GzDecoder` read to the end gives for some
/// bytes: the decompressed bytes, or nothing when decompression fails.
pub uninterp spec fn gunzipped(data: Seq<u8>) -> Option<Seq<u8>>;

/// Calls `Engine::decode` of the standard base64 engine; claims that the
/// result is the value of `base64_decoded` at the text.
#[verifier::external_body]
fn base64_decode(text: &str) -> (r: Option<Vec<u8>>)
    ensures
        r is Some == base64_decoded(text@) is Some,
        r matches Some(b) ==> b@ == base64_decoded(text@)->0,
{
    base64::engine::general_purpose::STANDARD.decode(text).ok()
}

/// Reads a `flate2::read::GzDecoder` over `data` to the end; claims that the
/// result is the value of `gunzipped` at the bytes.
#[verifier::external_body]
fn gunzip(data: &[u8]) -> (r: Option<Vec<u8>>)
    ensures
        r is Some == gunzipped(data@) is Some,
        r matches Some(b) ==> b@ == gunzipped(data@)->0,
{
    let mut decoder = flate2::read::GzDecoder::new(data);
    let mut out = Vec::new();
    match decoder.read_to_end(&mut out) {
        Ok(_) => Some(out),
        Err(_) => None,
    }
}

/// Calls `String::from_utf8`: the text that the bytes encode, when they are
/// valid UTF-8.
#[verifier::external_body]
fn utf8_text(bytes: Vec<u8>) -> (r: Option<String>)
    ensures
        r is Some == valid_utf8(bytes@),
        r matches Some(s) ==> s@ == decode_utf8(bytes@),
{
    String::from_utf8(bytes).ok()
}

/// The cookies file content carried by the `YOUTUBE_COOKIES_B64` setting:
/// nothing for an empty setting; else its base64 decoding, decompressed when
/// it is gzip data and kept as it is otherwise, read as UTF-8 text.
pub open spec fn cookies_content_spec(raw: Seq<char>) -> Option<Seq<char>> {
    if raw.len() == 0 {
        None
    } else {
        match base64_decoded(raw) {
            None => None,
            Some(decoded) => {
                let content = match gunzipped(decoded) {
                    Some(c) => c,
                    None => decoded,
                };
                if valid_utf8(content) {
                    Some(decode_utf8(content))
                } else {
                    None
                }
            },
        }
    }
}

/// The cookies file content carried by the base64 (optionally gzip) setting.
pub fn cookies_file_content(raw: &str) -> (r: Option<String>)
    ensures
        opt_view(r) == cookies_content_spec(raw@),
{
    if raw.is_empty() {
        return None;
    }
    let decoded = match base64_decode(raw) {
        Some(d) => d,
        None => return None,
    };
    let content = match gunzip(decoded.as_slice()) {
        Some(c) => c,
        None => decoded,
    };
    utf8_text(content)
}

/// The layout of the shared downloader arguments, whatever is configured: the
/// YouTube extractor setting comes first; a configured PO-token provider
/// address `u` always adds `--extractor-args youtubepot-bgutilhttp:base_url=u`
/// right after it, with or without cookies; a cookies file `p` always ends the
/// list with `--cookies p`, with or without a provider; nothing else is added.
pub proof fn law_base_args_layout(provider_url: Option<Seq<char>>, cookies_path: Option<Seq<char>>)
    ensures
        base_args_spec(provider_url, cookies_path).len() == 2 + (if provider_url is Some {
            2int
        } else {
            0int
        }) + (if cookies_path is Some {
            2int
        } else {
            0int
        }),
        base_args_spec(provider_url, cookies_path)[0] == "--extractor-args"@,
        base_args_spec(provider_url, cookies_path)[1]
            == "youtube:player_client=tv,web_safari,web,android_vr;formats=missing_pot"@,
        provider_url matches Some(u) ==> base_args_spec(provider_url, cookies_path)[2] == "--extractor-args"@
            && base_args_spec(provider_url, cookies_path)[3] == "youtubepot-bgutilhttp:base_url="@ + u,
        cookies_path matches Some(p) ==> base_args_spec(provider_url, cookies_path)[base_args_spec(
            provider_url,
            cookies_path,
        ).len() - 2] == "--cookies"@ && base_args_spec(provider_url, cookies_path).last() == p,
{
    reveal_strlit("tv");
    reveal_strlit("web_safari");
    reveal_strlit("web");
    reveal_strlit("android_vr");
    reveal_strlit("missing_pot");
    reveal_strlit(",");
    reveal_strlit("youtube:player_client=");
    reveal_strlit(";formats=");
    reveal_strlit("youtube:player_client=tv,web_safari,web,android_vr;formats=missing_pot");
    let pc = default_player_clients();
    reveal_with_fuel(join, 5);
    assert(pc.drop_last().drop_last().drop_last() =~= seq!["tv"@]);
    assert(pc.drop_last().drop_last() =~= seq!["tv"@, "web_safari"@]);
    assert(pc.drop_last() =~= seq!["tv"@, "web_safari"@, "web"@]);
    assert(join(pc, ","@) =~= "tv,web_safari,web,android_vr"@) by {
        reveal_strlit("tv,web_safari,web,android_vr");
    }
    assert(youtube_arg(pc, default_formats()) =~= "youtube:player_client=tv,web_safari,web,android_vr;formats=missing_pot"@);
    match provider_url {
        Some(u) => {
            assert(join(seq![u], ","@) == u);
        },
        None => {},
    }
}

} // verus!
