//! The Subsonic REST API: how requests are addressed and signed, and what the
//! replies mean.

use std::time::{Duration, SystemTime, SystemTimeError};
use vstd::arithmetic::power;
use vstd::prelude::*;

use crate::config::{ServerConfig, ServerConfigView};
use crate::text;

verus! {

// ── The library's catalogue ──────────────────────────────────────────────────

#[derive(Debug)]
pub struct Artist {
    pub id: String,
    pub name: String,
    pub album_count: u32,
    pub cover_art: Option<String>,
}

#[derive(Debug)]
pub struct Album {
    pub id: String,
    pub name: String,
    pub artist: Option<String>,
    pub year: Option<u32>,
    pub song_count: u32,
    pub cover_art: Option<String>,
}

#[derive(Debug)]
pub struct Track {
    pub id: String,
    pub title: String,
    pub artist: Option<String>,
    pub album: Option<String>,
    /// In seconds.
    pub duration: Option<u32>,
    pub cover_art: Option<String>,
    pub track_number: Option<u32>,
}

pub struct ArtistView {
    pub id: Seq<char>,
    pub name: Seq<char>,
    pub album_count: u32,
    pub cover_art: Option<Seq<char>>,
}

pub struct AlbumView {
    pub id: Seq<char>,
    pub name: Seq<char>,
    pub artist: Option<Seq<char>>,
    pub year: Option<u32>,
    pub song_count: u32,
    pub cover_art: Option<Seq<char>>,
}

pub struct TrackView {
    pub id: Seq<char>,
    pub title: Seq<char>,
    pub artist: Option<Seq<char>>,
    pub album: Option<Seq<char>>,
    pub duration: Option<u32>,
    pub cover_art: Option<Seq<char>>,
    pub track_number: Option<u32>,
}

impl DeepView for Artist {
    type V = ArtistView;

    open spec fn deep_view(&self) -> ArtistView {
        ArtistView {
            id: self.id@,
            name: self.name@,
            album_count: self.album_count,
            cover_art: self.cover_art.deep_view(),
        }
    }
}

impl DeepView for Album {
    type V = AlbumView;

    open spec fn deep_view(&self) -> AlbumView {
        AlbumView {
            id: self.id@,
            name: self.name@,
            artist: self.artist.deep_view(),
            year: self.year,
            song_count: self.song_count,
            cover_art: self.cover_art.deep_view(),
        }
    }
}

impl DeepView for Track {
    type V = TrackView;

    open spec fn deep_view(&self) -> TrackView {
        TrackView {
            id: self.id@,
            title: self.title@,
            artist: self.artist.deep_view(),
            album: self.album.deep_view(),
            duration: self.duration,
            cover_art: self.cover_art.deep_view(),
            track_number: self.track_number,
        }
    }
}

impl Clone for Artist {
    fn clone(&self) -> (r: Self)
        ensures
            r == *self,
    {
        Artist {
            id: self.id.clone(),
            name: self.name.clone(),
            album_count: self.album_count,
            cover_art: self.cover_art.clone(),
        }
    }
}

impl Clone for Album {
    fn clone(&self) -> (r: Self)
        ensures
            r == *self,
    {
        Album {
            id: self.id.clone(),
            name: self.name.clone(),
            artist: self.artist.clone(),
            year: self.year,
            song_count: self.song_count,
            cover_art: self.cover_art.clone(),
        }
    }
}

impl Clone for Track {
    fn clone(&self) -> (r: Self)
        ensures
            r == *self,
    {
        Track {
            id: self.id.clone(),
            title: self.title.clone(),
            artist: self.artist.clone(),
            album: self.album.clone(),
            duration: self.duration,
            cover_art: self.cover_art.clone(),
            track_number: self.track_number,
        }
    }
}

// ── Authentication ───────────────────────────────────────────────────────────

/// The MD5 digest of some bytes.
pub uninterp spec fn md5_digest(data: Seq<u8>) -> Seq<u8>;

/// Calls `md5::compute`. The claim: the sixteen bytes it returns are the value
/// of `md5_digest` on the bytes it is given, that is, they depend on nothing
/// else.
#[verifier::external_body]
fn md5_compute(data: &[u8]) -> (r: [u8; 16])
    ensures
        r@ == md5_digest(data@),
{
    md5::compute(data).0
}

#[verifier::external_type_specification]
#[verifier::external_body]
pub struct ExSystemTime(SystemTime);

#[verifier::external_type_specification]
#[verifier::external_body]
pub struct ExSystemTimeError(SystemTimeError);

/// Calls `SystemTime::now`. Nothing is claimed of the moment it returns.
#[verifier::external_body]
fn clock_now() -> (r: SystemTime) {
    SystemTime::now()
}

/// Calls `SystemTime::duration_since` with the Unix epoch. Nothing is claimed
/// of the result: a clock may stand before the epoch.
#[verifier::external_body]
fn since_epoch(t: SystemTime) -> (r: Result<Duration, SystemTimeError>) {
    t.duration_since(SystemTime::UNIX_EPOCH)
}

/// Calls `Duration::subsec_nanos`. The claim: the fractional part of a second
/// is less than one second, as the function documents.
#[verifier::external_body]
fn nanos_of(d: Duration) -> (r: u32)
    ensures
        r < 1_000_000_000,
{
    d.subsec_nanos()
}

/// The salt made from the fractional part of a second: eight hexadecimal digits.
pub open spec fn salt_of(nanos: u32) -> Seq<char> {
    text::hex_digits(nanos as nat, 8)
}

/// Bytes in hexadecimal, two small digits each.
pub open spec fn lower_hex(bytes: Seq<u8>) -> Seq<char>
    decreases bytes.len(),
{
    if bytes.len() == 0 {
        Seq::empty()
    } else {
        lower_hex(bytes.drop_last()) + text::hex_digits(bytes.last() as nat, 2)
    }
}

/// The token that proves knowledge of `password`: the MD5 digest, in
/// hexadecimal, of the password with the salt behind it.
pub open spec fn token_of(password: Seq<char>, salt: Seq<char>) -> Seq<char> {
    lower_hex(md5_digest(vstd::utf8::encode_utf8(password + salt)))
}

/// A digest in hexadecimal.
pub fn hex_of(bytes: &[u8]) -> (r: String)
    ensures
        r@ == lower_hex(bytes@),
{
    let mut out: String = String::new();
    let n: usize = bytes.len();
    let mut i: usize = 0;
    assert(bytes@.take(0) == Seq::<u8>::empty());
    while i < n
        invariant
            i <= n == bytes@.len(),
            out@ == lower_hex(bytes@.take(i as int)),
        decreases n - i,
    {
        assert(bytes@.take(i + 1).drop_last() == bytes@.take(i as int));
        text::push_hex(&mut out, bytes[i] as u64, 2);
        i = i + 1;
    }
    assert(bytes@.take(n as int) == bytes@);
    out
}

pub fn make_token(password: &str, salt: &str) -> (r: String)
    ensures
        r@ == token_of(password@, salt@),
        r@.len() == 32,
{
    let input: String = password.to_string().concat(salt);
    let digest: [u8; 16] = md5_compute(input.as_str().as_bytes());
    proof {
        law_hexadecimal_is_twice_as_long(digest@);
    }
    hex_of(digest.as_slice())
}

pub fn salt_from_nanos(nanos: u32) -> (r: String)
    ensures
        r@ == salt_of(nanos),
{
    let mut out: String = String::new();
    text::push_hex(&mut out, nanos as u64, 8);
    assert(out@ =~= salt_of(nanos));
    out
}

/// A salt made from the clock.
pub fn random_salt() -> (r: String)
    ensures
        exists|nanos: u32| nanos < 1_000_000_000 && r@ == #[trigger] salt_of(nanos),
{
    let nanos: u32 = match since_epoch(clock_now()) {
        Ok(d) => nanos_of(d),
        Err(_) => 0,
    };
    salt_from_nanos(nanos)
}

// ── Requests ─────────────────────────────────────────────────────────────────

/// A minimal Subsonic REST API client.
/// Uses token-based auth (md5(password + salt)) per API spec.
#[derive(Debug)]
pub struct Client {
    pub cfg: ServerConfig,
}

/// A GET request: the address and the query parameters, not yet encoded.
#[derive(Debug)]
pub struct ApiRequest {
    pub url: String,
    pub params: Vec<(&'static str, String)>,
}

/// The address of an endpoint. Slashes at the end of the server's address are
/// dropped.
pub open spec fn url_of(cfg: ServerConfigView, endpoint: Seq<char>) -> Seq<char> {
    text::trim_end_char_of(cfg.url, '/') + "/rest/"@ + endpoint
}

/// The query parameters that every request carries.
pub open spec fn base_params_of(
    cfg: ServerConfigView,
    token: Seq<char>,
    salt: Seq<char>,
) -> Seq<(Seq<char>, Seq<char>)> {
    seq![
        ("u"@, cfg.username),
        ("t"@, token),
        ("s"@, salt),
        ("v"@, cfg.api_version),
        ("c"@, "navipod"@),
        ("f"@, "json"@),
    ]
}

/// The parameters of a request, with the id of what is asked for where there is
/// one.
pub open spec fn params_of(
    cfg: ServerConfigView,
    token: Seq<char>,
    salt: Seq<char>,
    id: Option<Seq<char>>,
) -> Seq<(Seq<char>, Seq<char>)> {
    match id {
        Some(i) => base_params_of(cfg, token, salt).push(("id"@, i)),
        None => base_params_of(cfg, token, salt),
    }
}

/// The part of a media address that names the account and the media item.
pub open spec fn signed_query(
    cfg: ServerConfigView,
    token: Seq<char>,
    salt: Seq<char>,
    id: Seq<char>,
) -> Seq<char> {
    "?u="@ + cfg.username + "&t="@ + token + "&s="@ + salt + "&v="@ + cfg.api_version
        + "&c=navipod&id="@ + id
}

/// The address of a track's audio.
pub open spec fn stream_url_of(
    cfg: ServerConfigView,
    token: Seq<char>,
    salt: Seq<char>,
    track_id: Seq<char>,
) -> Seq<char> {
    url_of(cfg, "stream"@) + signed_query(cfg, token, salt, track_id)
}

/// The address of a cover picture.
pub open spec fn cover_art_url_of(
    cfg: ServerConfigView,
    token: Seq<char>,
    salt: Seq<char>,
    cover_id: Seq<char>,
    size: Option<u32>,
) -> Seq<char> {
    url_of(cfg, "getCoverArt"@) + signed_query(cfg, token, salt, cover_id) + (match size {
        Some(n) => "&size="@ + text::decimal(n as nat),
        None => Seq::empty(),
    })
}

/// A request signed with some salt that the clock gave, the same salt in the
/// token and beside it.
pub open spec fn signed_request(
    r: ApiRequest,
    cfg: ServerConfigView,
    endpoint: Seq<char>,
    id: Option<Seq<char>>,
) -> bool {
    &&& r.url@ == url_of(cfg, endpoint)
    &&& exists|nanos: u32|
        nanos < 1_000_000_000 && r.params.deep_view() == params_of(
            cfg,
            token_of(cfg.password, #[trigger] salt_of(nanos)),
            salt_of(nanos),
            id,
        )
}

impl Clone for Client {
    fn clone(&self) -> (r: Self)
        ensures
            r == *self,
    {
        Client { cfg: self.cfg.clone() }
    }
}

impl Client {
    pub fn new(cfg: ServerConfig) -> (r: Self)
        ensures
            r.cfg == cfg,
    {
        Client { cfg }
    }

    /// Base query params shared by every request, for a given token and salt.
    pub fn base_params_with(&self, token: String, salt: String) -> (r: Vec<(&'static str, String)>)
        ensures
            r.deep_view() == base_params_of(self.cfg.deep_view(), token@, salt@),
    {
        let mut params: Vec<(&'static str, String)> = Vec::new();
        params.push(("u", self.cfg.username.clone()));
        params.push(("t", token));
        params.push(("s", salt));
        params.push(("v", self.cfg.api_version.clone()));
        params.push(("c", "navipod".to_string()));
        params.push(("f", "json".to_string()));
        assert(params.deep_view() =~= base_params_of(self.cfg.deep_view(), token@, salt@));
        params
    }

    /// Base query params shared by every request, freshly signed.
    pub fn base_params(&self) -> (r: Vec<(&'static str, String)>)
        ensures
            exists|nanos: u32|
                nanos < 1_000_000_000 && r.deep_view() == base_params_of(
                    self.cfg.deep_view(),
                    token_of(self.cfg.password@, #[trigger] salt_of(nanos)),
                    salt_of(nanos),
                ),
    {
        let salt: String = random_salt();
        let token: String = make_token(self.cfg.password.as_str(), salt.as_str());
        self.base_params_with(token, salt)
    }

    /// The address of an endpoint.
    pub fn url(&self, endpoint: &str) -> (r: String)
        ensures
            r@ == url_of(self.cfg.deep_view(), endpoint@),
    {
        let base: &str = text::trim_end_char(self.cfg.url.as_str(), '/');
        base.to_string().concat("/rest/").concat(endpoint)
    }

    /// The request to an endpoint, freshly signed.
    fn request(&self, endpoint: &str, id: Option<&str>) -> (r: ApiRequest)
        ensures
            signed_request(r, self.cfg.deep_view(), endpoint@, id.deep_view()),
    {
        let mut params: Vec<(&'static str, String)> = self.base_params();
        let ghost base = params.deep_view();
        let ghost nanos = choose|nanos: u32|
            nanos < 1_000_000_000 && base == base_params_of(
                self.cfg.deep_view(),
                token_of(self.cfg.password@, #[trigger] salt_of(nanos)),
                salt_of(nanos),
            );
        match id {
            Some(i) => {
                params.push(("id", i.to_string()));
                assert(params.deep_view() =~= base.push(("id"@, i@)));
            },
            None => {},
        }
        assert(params.deep_view() == params_of(
            self.cfg.deep_view(),
            token_of(self.cfg.password@, salt_of(nanos)),
            salt_of(nanos),
            id.deep_view(),
        ));
        ApiRequest { url: self.url(endpoint), params }
    }

    /// The request for all artists.
    pub fn artists_request(&self) -> (r: ApiRequest)
        ensures
            signed_request(r, self.cfg.deep_view(), "getArtists"@, None),
    {
        self.request("getArtists", None)
    }

    /// The request for the albums of an artist.
    pub fn artist_albums_request(&self, artist_id: &str) -> (r: ApiRequest)
        ensures
            signed_request(r, self.cfg.deep_view(), "getArtist"@, Some(artist_id@)),
    {
        self.request("getArtist", Some(artist_id))
    }

    /// The request for the tracks of an album.
    pub fn album_tracks_request(&self, album_id: &str) -> (r: ApiRequest)
        ensures
            signed_request(r, self.cfg.deep_view(), "getAlbum"@, Some(album_id@)),
    {
        self.request("getAlbum", Some(album_id))
    }

    fn media_url(&self, endpoint: &str, token: &str, salt: &str, id: &str) -> (r: String)
        ensures
            r@ == url_of(self.cfg.deep_view(), endpoint@) + signed_query(
                self.cfg.deep_view(),
                token@,
                salt@,
                id@,
            ),
    {
        let mut out: String = self.url(endpoint);
        out.append("?u=");
        out.append(self.cfg.username.as_str());
        out.append("&t=");
        out.append(token);
        out.append("&s=");
        out.append(salt);
        out.append("&v=");
        out.append(self.cfg.api_version.as_str());
        out.append("&c=navipod&id=");
        out.append(id);
        assert(out@ =~= url_of(self.cfg.deep_view(), endpoint@) + signed_query(
            self.cfg.deep_view(),
            token@,
            salt@,
            id@,
        ));
        out
    }

    /// The stream URL for a track, for a given token and salt.
    pub fn stream_url_with(&self, token: &str, salt: &str, track_id: &str) -> (r: String)
        ensures
            r@ == stream_url_of(self.cfg.deep_view(), token@, salt@, track_id@),
    {
        self.media_url("stream", token, salt, track_id)
    }

    /// Returns a fully-formed stream URL for a track.
    pub fn stream_url(&self, track_id: &str) -> (r: String)
        ensures
            exists|nanos: u32|
                nanos < 1_000_000_000 && r@ == stream_url_of(
                    self.cfg.deep_view(),
                    token_of(self.cfg.password@, #[trigger] salt_of(nanos)),
                    salt_of(nanos),
                    track_id@,
                ),
    {
        let salt: String = random_salt();
        let token: String = make_token(self.cfg.password.as_str(), salt.as_str());
        self.stream_url_with(token.as_str(), salt.as_str(), track_id)
    }

    /// The cover art URL for a cover art ID, for a given token and salt.
    pub fn cover_art_url_with(
        &self,
        token: &str,
        salt: &str,
        cover_id: &str,
        size: Option<u32>,
    ) -> (r: String)
        ensures
            r@ == cover_art_url_of(self.cfg.deep_view(), token@, salt@, cover_id@, size),
    {
        let mut out: String = self.media_url("getCoverArt", token, salt, cover_id);
        let ghost base = out@;
        match size {
            Some(n) => {
                out.append("&size=");
                text::push_decimal(&mut out, n as u64);
                assert(out@ =~= base + ("&size="@ + text::decimal(n as nat)));
            },
            None => {
                assert(base + Seq::<char>::empty() =~= base);
            },
        }
        out
    }

    /// Returns a cover art URL for a cover art ID.
    pub fn cover_art_url(&self, cover_id: &str, size: Option<u32>) -> (r: String)
        ensures
            exists|nanos: u32|
                nanos < 1_000_000_000 && r@ == cover_art_url_of(
                    self.cfg.deep_view(),
                    token_of(self.cfg.password@, #[trigger] salt_of(nanos)),
                    salt_of(nanos),
                    cover_id@,
                    size,
                ),
    {
        let salt: String = random_salt();
        let token: String = make_token(self.cfg.password.as_str(), salt.as_str());
        self.cover_art_url_with(token.as_str(), salt.as_str(), cover_id, size)
    }
}

// ── Replies ──────────────────────────────────────────────────────────────────

#[derive(Debug)]
pub struct SubsonicResponse {
    pub subsonic_response: SubsonicResponseInner,
}

#[derive(Debug)]
pub struct SubsonicResponseInner {
    pub status: String,
    pub error: Option<ApiError>,
    pub artists: Option<ArtistsWrapper>,
    pub artist: Option<ArtistDetail>,
    pub album: Option<AlbumDetail>,
}

#[derive(Debug)]
pub struct ApiError {
    pub message: String,
}

#[derive(Debug)]
pub struct ArtistsWrapper {
    pub index: Vec<ArtistIndex>,
}

#[derive(Debug)]
pub struct ArtistIndex {
    pub artist: Vec<Artist>,
}

#[derive(Debug)]
pub struct ArtistDetail {
    pub album: Vec<Album>,
}

#[derive(Debug)]
pub struct AlbumDetail {
    pub song: Vec<Track>,
}

/// Why a reply holds no result.
#[derive(Debug)]
pub struct ApiFailure {
    pub message: String,
}

/// What the server says of itself where it did not answer with "ok".
pub open spec fn failure_text(inner: SubsonicResponseInner) -> Seq<char> {
    "Subsonic API error: "@ + (match inner.error {
        Some(e) => e.message@,
        None => "unknown error"@,
    })
}

/// The artists of all index letters, letter by letter.
pub open spec fn all_artists(index: Seq<ArtistIndex>) -> Seq<Artist>
    decreases index.len(),
{
    if index.len() == 0 {
        Seq::empty()
    } else {
        all_artists(index.drop_last()) + index.last().artist@
    }
}

/// The server answered with "ok".
pub open spec fn answered(inner: SubsonicResponseInner) -> bool {
    inner.status@ == "ok"@
}

/// The artists that a reply holds.
pub open spec fn artists_in(inner: SubsonicResponseInner) -> Seq<Artist> {
    match inner.artists {
        Some(a) => all_artists(a.index@),
        None => Seq::empty(),
    }
}

/// The albums that a reply holds.
pub open spec fn albums_in(inner: SubsonicResponseInner) -> Seq<Album> {
    match inner.artist {
        Some(a) => a.album@,
        None => Seq::empty(),
    }
}

/// The tracks that a reply holds.
pub open spec fn tracks_in(inner: SubsonicResponseInner) -> Seq<Track> {
    match inner.album {
        Some(a) => a.song@,
        None => Seq::empty(),
    }
}

impl SubsonicResponse {
    /// Whether the server answered with "ok", and with what error if not.
    pub fn check(&self) -> (r: Result<(), ApiFailure>)
        ensures
            r is Ok <==> self.subsonic_response.status@ == "ok"@,
            r is Ok <==> answered(self.subsonic_response),
            r matches Err(e) ==> e.message@ == failure_text(self.subsonic_response),
    {
        if !text::same(self.subsonic_response.status.as_str(), "ok") {
            let msg: &str = match &self.subsonic_response.error {
                Some(e) => e.message.as_str(),
                None => "unknown error",
            };
            return Err(ApiFailure { message: "Subsonic API error: ".to_string().concat(msg) });
        }
        Ok(())
    }

    /// The artists in a reply to `getArtists`.
    pub fn into_artists(self) -> (r: Result<Vec<Artist>, ApiFailure>)
        ensures
            r is Ok <==> self.subsonic_response.status@ == "ok"@,
            r is Ok <==> answered(self.subsonic_response),
            r matches Ok(v) ==> v@ == artists_in(self.subsonic_response),
            r matches Ok(v) ==> v@ == (match self.subsonic_response.artists {
                Some(a) => all_artists(a.index@),
                None => Seq::empty(),
            }),
            r matches Err(e) ==> e.message@ == failure_text(self.subsonic_response),
    {
        match self.check() {
            Err(e) => Err(e),
            Ok(_) => match self.subsonic_response.artists {
                Some(a) => Ok(flatten_artists(a.index)),
                None => Ok(Vec::new()),
            },
        }
    }

    /// The albums in a reply to `getArtist`.
    pub fn into_albums(self) -> (r: Result<Vec<Album>, ApiFailure>)
        ensures
            r is Ok <==> self.subsonic_response.status@ == "ok"@,
            r is Ok <==> answered(self.subsonic_response),
            r matches Ok(v) ==> v@ == albums_in(self.subsonic_response),
            r matches Ok(v) ==> v@ == (match self.subsonic_response.artist {
                Some(a) => a.album@,
                None => Seq::empty(),
            }),
            r matches Err(e) ==> e.message@ == failure_text(self.subsonic_response),
    {
        match self.check() {
            Err(e) => Err(e),
            Ok(_) => match self.subsonic_response.artist {
                Some(a) => Ok(a.album),
                None => Ok(Vec::new()),
            },
        }
    }

    /// The tracks in a reply to `getAlbum`.
    pub fn into_tracks(self) -> (r: Result<Vec<Track>, ApiFailure>)
        ensures
            r is Ok <==> self.subsonic_response.status@ == "ok"@,
            r is Ok <==> answered(self.subsonic_response),
            r matches Ok(v) ==> v@ == tracks_in(self.subsonic_response),
            r matches Ok(v) ==> v@ == (match self.subsonic_response.album {
                Some(a) => a.song@,
                None => Seq::empty(),
            }),
            r matches Err(e) ==> e.message@ == failure_text(self.subsonic_response),
    {
        match self.check() {
            Err(e) => Err(e),
            Ok(_) => match self.subsonic_response.album {
                Some(a) => Ok(a.song),
                None => Ok(Vec::new()),
            },
        }
    }
}

fn flatten_artists(index: Vec<ArtistIndex>) -> (r: Vec<Artist>)
    ensures
        r@ == all_artists(index@),
{
    let mut out: Vec<Artist> = Vec::new();
    let n: usize = index.len();
    let mut i: usize = 0;
    assert(index@.take(0) == Seq::<ArtistIndex>::empty());
    while i < n
        invariant
            i <= n == index@.len(),
            out@ == all_artists(index@.take(i as int)),
        decreases n - i,
    {
        assert(index@.take(i + 1).drop_last() == index@.take(i as int));
        let mut letter: Vec<Artist> = index[i].artist.clone();
        assert(letter@ =~= index@[i as int].artist@);
        out.append(&mut letter);
        i = i + 1;
    }
    assert(index@.take(n as int) == index@);
    out
}

// ── Laws ─────────────────────────────────────────────────────────────────────

/// Bytes in hexadecimal take two digits each.
pub proof fn law_hexadecimal_is_twice_as_long(bytes: Seq<u8>)
    ensures
        lower_hex(bytes).len() == 2 * bytes.len(),
    decreases bytes.len(),
{
    if bytes.len() > 0 {
        law_hexadecimal_is_twice_as_long(bytes.drop_last());
        lemma_hex_len(bytes.last() as nat, 2);
    }
}

/// A salt has eight digits, and two moments within a second give two salts.
pub proof fn law_salts(a: u32, b: u32)
    ensures
        salt_of(a).len() == 8,
        a != b ==> salt_of(a) != salt_of(b),
{
    lemma_hex_len(a as nat, 8);
    if salt_of(a) == salt_of(b) {
        assert(0x1_0000_0000 == power::pow(16, 8)) by {
            reveal_with_fuel(power::pow, 9);
        }
        lemma_hex_tells_apart(a as nat, b as nat, 8);
    }
}

proof fn lemma_hex_len(n: nat, width: nat)
    ensures
        text::hex_digits(n, width).len() == width,
    decreases width,
{
    if width > 0 {
        lemma_hex_len(n / 16, (width - 1) as nat);
    }
}

proof fn lemma_hex_tells_apart(a: nat, b: nat, width: nat)
    requires
        a < power::pow(16, width),
        b < power::pow(16, width),
        text::hex_digits(a, width) == text::hex_digits(b, width),
    ensures
        a == b,
    decreases width,
{
    reveal_with_fuel(power::pow, 2);
    if width > 0 {
        let rest = (width - 1) as nat;
        let x = text::hex_digits(a / 16, rest);
        let y = text::hex_digits(b / 16, rest);
        lemma_hex_len(a / 16, rest);
        lemma_hex_len(b / 16, rest);
        let whole_a = text::hex_digits(a, width);
        let whole_b = text::hex_digits(b, width);
        assert(whole_a.drop_last() =~= x);
        assert(whole_b.drop_last() =~= y);
        assert(whole_a.last() == text::digit_char(a % 16));
        assert(whole_b.last() == text::digit_char(b % 16));
        assert(a % 16 == b % 16);
        assert(power::pow(16, width) == 16 * power::pow(16, rest));
        lemma_hex_tells_apart(a / 16, b / 16, rest);
    }
}

/// Slashes at the end of the server's address make no difference.
pub proof fn law_slashes_at_the_end(cfg: ServerConfigView, endpoint: Seq<char>)
    ensures
        url_of(ServerConfigView { url: cfg.url.push('/'), ..cfg }, endpoint) == url_of(
            cfg,
            endpoint,
        ),
        text::trim_end_char_of(cfg.url, '/').len() > 0 ==> text::trim_end_char_of(
            cfg.url,
            '/',
        ).last() != '/',
{
    assert(cfg.url.push('/').drop_last() =~= cfg.url);
    lemma_trimmed_end(cfg.url, '/');
}

proof fn lemma_trimmed_end(s: Seq<char>, c: char)
    ensures
        text::trim_end_char_of(s, c).len() > 0 ==> text::trim_end_char_of(s, c).last() != c,
    decreases s.len(),
{
    if s.len() > 0 && s.last() == c {
        lemma_trimmed_end(s.drop_last(), c);
    }
}

/// How many artists the letters in front of the `k`th have together.
pub open spec fn artists_before(index: Seq<ArtistIndex>, k: int) -> nat
    decreases k,
{
    if k <= 0 {
        0
    } else {
        artists_before(index, k - 1) + index[k - 1].artist@.len()
    }
}

proof fn lemma_artists_before(a: Seq<ArtistIndex>, b: Seq<ArtistIndex>, k: int)
    requires
        k <= a.len(),
        k <= b.len(),
        forall|i: int| 0 <= i < k ==> a[i] == b[i],
    ensures
        artists_before(a, k) == artists_before(b, k),
    decreases k,
{
    if k > 0 {
        lemma_artists_before(a, b, k - 1);
        assert(a[k - 1] == b[k - 1]);
    }
}

/// The artists of a reply are those of all its index letters, letter by letter: there
/// are as many as the letters have together, and the `j`th artist of the `k`th letter
/// stands in the place `j` behind all artists of the letters before it.
pub proof fn law_artists_of_all_letters(index: Seq<ArtistIndex>, k: int, j: int)
    ensures
        all_artists(index).len() == artists_before(index, index.len() as int),
        0 <= k < index.len() && 0 <= j < index[k].artist@.len() ==> {
            let place = artists_before(index, k) + j;
            place < all_artists(index).len() && all_artists(index)[place] == index[k].artist@[j]
        },
{
    lemma_number_of_artists(index);
    if 0 <= k < index.len() && 0 <= j < index[k].artist@.len() {
        lemma_artist_in_place(index, k, j);
    }
}

proof fn lemma_number_of_artists(index: Seq<ArtistIndex>)
    ensures
        all_artists(index).len() == artists_before(index, index.len() as int),
    decreases index.len(),
{
    if index.len() > 0 {
        let rest = index.drop_last();
        lemma_number_of_artists(rest);
        lemma_artists_before(rest, index, rest.len() as int);
    }
}

proof fn lemma_artist_in_place(index: Seq<ArtistIndex>, k: int, j: int)
    requires
        0 <= k < index.len(),
        0 <= j < index[k].artist@.len(),
    ensures
        artists_before(index, k) + j < all_artists(index).len(),
        all_artists(index)[artists_before(index, k) + j] == index[k].artist@[j],
    decreases index.len(),
{
    let rest = index.drop_last();
    lemma_number_of_artists(index);
    lemma_number_of_artists(rest);
    lemma_artists_before(rest, index, rest.len() as int);
    if k < rest.len() {
        assert(rest[k] == index[k]);
        lemma_artist_in_place(rest, k, j);
        lemma_artists_before(rest, index, k);
    }
}

/// Without letters there are no artists, and every artist of a reply is one of some
/// letter.
pub proof fn law_no_other_artists(index: Seq<ArtistIndex>, place: int)
    requires
        0 <= place < all_artists(index).len(),
    ensures
        exists|k: int, j: int|
            0 <= k < index.len() && 0 <= j < index[k].artist@.len() && all_artists(index)[place]
                == #[trigger] index[k].artist@[j],
    decreases index.len(),
{
    if index.len() > 0 {
        let rest = index.drop_last();
        let last = index.len() - 1;
        if place < all_artists(rest).len() {
            law_no_other_artists(rest, place);
            let (k, j) = choose|k: int, j: int|
                0 <= k < rest.len() && 0 <= j < rest[k].artist@.len() && all_artists(rest)[place]
                    == #[trigger] rest[k].artist@[j];
            assert(rest[k] == index[k]);
            assert(all_artists(index)[place] == index[k].artist@[j]);
        } else {
            assert(all_artists(index)[place] == index[last].artist@[place - all_artists(
                rest,
            ).len()]);
        }
    }
}

/// Two hexadecimal digits stand for each byte, the higher one first, and digits above
/// nine are small letters.
pub proof fn law_hexadecimal_digits(bytes: Seq<u8>, i: int)
    requires
        0 <= i < bytes.len(),
    ensures
        lower_hex(bytes).len() == 2 * bytes.len(),
        lower_hex(bytes)[2 * i] == "0123456789abcdef"@[bytes[i] as int / 16],
        lower_hex(bytes)[2 * i + 1] == "0123456789abcdef"@[bytes[i] as int % 16],
    decreases bytes.len(),
{
    law_hexadecimal_is_twice_as_long(bytes);
    law_hexadecimal_is_twice_as_long(bytes.drop_last());
    if i < bytes.len() - 1 {
        law_hexadecimal_digits(bytes.drop_last(), i);
    } else {
        let n = bytes[i] as nat;
        reveal_with_fuel(text::hex_digits, 3);
        lemma_hex_len(n, 2);
        text::law_digits(n / 16);
        text::law_digits(n % 16);
        assert((n / 16) % 16 == n / 16);
    }
}

/// A salt is the number of nanoseconds in eight hexadecimal digits: each digit is
/// worth sixteen times the one behind it.
pub proof fn law_salts_write_the_nanoseconds(nanos: u32, i: int)
    requires
        0 <= i < 8,
    ensures
        salt_of(nanos).len() == 8,
        salt_of(nanos)[i] == "0123456789abcdef"@[(nanos as int / power::pow(
            16,
            (7 - i) as nat,
        )) % 16],
{
    text::law_hexadecimal_places(nanos as nat, 8, i);
}

/// A token is the digest of the password with the salt behind it, and so depends on
/// nothing but the two together.
pub proof fn law_tokens_join_password_and_salt(
    password: Seq<char>,
    salt: Seq<char>,
    other_password: Seq<char>,
    other_salt: Seq<char>,
)
    requires
        password + salt == other_password + other_salt,
    ensures
        token_of(password, salt) == token_of(other_password, other_salt),
        token_of(password + salt, Seq::empty()) == token_of(password, salt),
        token_of(Seq::empty(), password + salt) == token_of(password, salt),
{
    assert((password + salt) + Seq::<char>::empty() =~= password + salt);
    assert(Seq::<char>::empty() + (password + salt) =~= password + salt);
}

/// A token writes the bytes of the digest of the password with the salt behind it, in
/// UTF-8, each in two hexadecimal digits and in their order.
pub proof fn law_tokens_write_the_digest(password: Seq<char>, salt: Seq<char>, i: int)
    requires
        0 <= i < md5_digest(vstd::utf8::encode_utf8(password + salt)).len(),
    ensures
        ({
            let digest = md5_digest(vstd::utf8::encode_utf8(password + salt));
            let token = token_of(password, salt);
            &&& token.len() == 2 * digest.len()
            &&& token[2 * i] == "0123456789abcdef"@[digest[i] as int / 16]
            &&& token[2 * i + 1] == "0123456789abcdef"@[digest[i] as int % 16]
        }),
{
    law_hexadecimal_digits(md5_digest(vstd::utf8::encode_utf8(password + salt)), i);
}

/// A signed request goes to its endpoint and carries, beside what every request does,
/// the salt that the clock gave and the token that belongs to it, and the id.
pub proof fn law_signed_requests(
    r: ApiRequest,
    cfg: ServerConfigView,
    endpoint: Seq<char>,
    id: Option<Seq<char>>,
)
    requires
        signed_request(r, cfg, endpoint, id),
    ensures
        r.url@ == url_of(cfg, endpoint),
        r.params.deep_view().len() == (if id is Some {
            7nat
        } else {
            6
        }),
        r.params.deep_view()[0] == ("u"@, cfg.username),
        r.params.deep_view()[1] == ("t"@, token_of(cfg.password, r.params.deep_view()[2].1)),
        r.params.deep_view()[2].0 == "s"@,
        exists|nanos: u32|
            nanos < 1_000_000_000 && r.params.deep_view()[2].1 == #[trigger] salt_of(nanos),
        r.params.deep_view()[3] == ("v"@, cfg.api_version),
        r.params.deep_view()[4] == ("c"@, "navipod"@),
        r.params.deep_view()[5] == ("f"@, "json"@),
        id is Some ==> r.params.deep_view()[6] == ("id"@, id->0),
{
}

/// An endpoint lies below `/rest/` of the server's address.
pub proof fn law_endpoints(cfg: ServerConfigView, endpoint: Seq<char>)
    requires
        cfg.url.len() > 0 ==> cfg.url.last() != '/',
    ensures
        url_of(cfg, endpoint) == cfg.url + ("/rest/"@ + endpoint),
{
    assert(url_of(cfg, endpoint) =~= cfg.url + ("/rest/"@ + endpoint));
}

/// Every request names the user, the token, the salt, the API version, this client and
/// the format, each once and in this order, and behind them the id of what is asked
/// for, where there is one.
pub proof fn law_requests_are_signed(
    cfg: ServerConfigView,
    token: Seq<char>,
    salt: Seq<char>,
    id: Option<Seq<char>>,
)
    ensures
        ({
            let params = params_of(cfg, token, salt, id);
            &&& params.len() == (if id is Some {
                7nat
            } else {
                6
            })
            &&& params[0] == ("u"@, cfg.username)
            &&& params[1] == ("t"@, token)
            &&& params[2] == ("s"@, salt)
            &&& params[3] == ("v"@, cfg.api_version)
            &&& params[4] == ("c"@, "navipod"@)
            &&& params[5] == ("f"@, "json"@)
            &&& id is Some ==> params[6] == ("id"@, id->0)
        }),
        params_of(cfg, token, salt, None) == base_params_of(cfg, token, salt),
        params_of(cfg, token, salt, id).take(6) == base_params_of(cfg, token, salt),
{
    assert(params_of(cfg, token, salt, id).take(6) =~= base_params_of(cfg, token, salt));
}

/// A track's audio and a cover picture lie at the server's address, each under its
/// own endpoint, signed in the address itself. A cover is asked for in a size only
/// where one is given.
pub proof fn law_media_addresses(
    cfg: ServerConfigView,
    token: Seq<char>,
    salt: Seq<char>,
    id: Seq<char>,
    size: u32,
)
    requires
        cfg.url.len() > 0 ==> cfg.url.last() != '/',
    ensures
        stream_url_of(cfg, token, salt, id) == cfg.url + "/rest/stream?u="@ + cfg.username
            + "&t="@ + token + "&s="@ + salt + "&v="@ + cfg.api_version + "&c=navipod&id="@ + id,
        cover_art_url_of(cfg, token, salt, id, None) == cfg.url + "/rest/getCoverArt?u="@
            + cfg.username + "&t="@ + token + "&s="@ + salt + "&v="@ + cfg.api_version
            + "&c=navipod&id="@ + id,
        cover_art_url_of(cfg, token, salt, id, Some(size)) == cover_art_url_of(
            cfg,
            token,
            salt,
            id,
            None,
        ) + "&size="@ + text::decimal(size as nat),
{
    reveal_strlit("/rest/");
    reveal_strlit("stream");
    reveal_strlit("?u=");
    reveal_strlit("/rest/stream?u=");
    reveal_strlit("getCoverArt");
    reveal_strlit("/rest/getCoverArt?u=");
    assert("/rest/"@ + "stream"@ + "?u="@ =~= "/rest/stream?u="@);
    assert("/rest/"@ + "getCoverArt"@ + "?u="@ =~= "/rest/getCoverArt?u="@);
    let signed = cfg.username + "&t="@ + token + "&s="@ + salt + "&v="@ + cfg.api_version
        + "&c=navipod&id="@ + id;
    assert(signed_query(cfg, token, salt, id) =~= "?u="@ + signed);
    assert(stream_url_of(cfg, token, salt, id) =~= cfg.url + ("/rest/"@ + "stream"@ + "?u="@)
        + signed);
    assert(cfg.url + "/rest/stream?u="@ + cfg.username + "&t="@ + token + "&s="@ + salt + "&v="@
        + cfg.api_version + "&c=navipod&id="@ + id =~= cfg.url + "/rest/stream?u="@ + signed);
    let cover = cover_art_url_of(cfg, token, salt, id, None);
    assert(cover =~= cfg.url + ("/rest/"@ + "getCoverArt"@ + "?u="@) + signed);
    assert(cfg.url + "/rest/getCoverArt?u="@ + cfg.username + "&t="@ + token + "&s="@ + salt
        + "&v="@ + cfg.api_version + "&c=navipod&id="@ + id =~= cfg.url
        + "/rest/getCoverArt?u="@ + signed);
    assert(cover_art_url_of(cfg, token, salt, id, Some(size)) =~= cover + "&size="@
        + text::decimal(size as nat));
}

/// What the server says of an error is passed on behind a fixed beginning, and where
/// it says nothing the error is unknown.
pub proof fn law_failures_say_why(inner: SubsonicResponseInner)
    ensures
        inner.error matches Some(e) ==> failure_text(inner) == "Subsonic API error: "@
            + e.message@,
        inner.error is None ==> failure_text(inner) == "Subsonic API error: unknown error"@,
{
    reveal_strlit("Subsonic API error: ");
    reveal_strlit("unknown error");
    reveal_strlit("Subsonic API error: unknown error");
    assert("Subsonic API error: "@ + "unknown error"@ =~= "Subsonic API error: unknown error"@);
}

/// Only "ok" counts as an answer, and a reply holds what its own part of it says, all of
/// it and in its order: the artists of its letters, the albums of its artist and the
/// tracks of its album, or none where that part is missing.
pub proof fn law_replies_hold_their_part(inner: SubsonicResponseInner)
    ensures
        answered(inner) <==> inner.status@ == seq!['o', 'k'],
        inner.artists matches Some(a) ==> artists_in(inner) == all_artists(a.index@),
        inner.artists is None ==> artists_in(inner).len() == 0,
        inner.artist matches Some(a) ==> albums_in(inner) == a.album@,
        inner.artist is None ==> albums_in(inner).len() == 0,
        inner.album matches Some(a) ==> tracks_in(inner) == a.song@,
        inner.album is None ==> tracks_in(inner).len() == 0,
{
    reveal_strlit("ok");
    assert("ok"@ =~= seq!['o', 'k']);
}

} // verus!
