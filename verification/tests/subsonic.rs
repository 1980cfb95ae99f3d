use navipod::config::ServerConfig;
use navipod::subsonic::{
    hex_of, make_token, random_salt, salt_from_nanos, Album, AlbumDetail, ApiError, Artist,
    ArtistDetail, ArtistIndex, ArtistsWrapper, Client, SubsonicResponse, SubsonicResponseInner,
    Track,
};

fn client(url: &str) -> Client {
    Client::new(ServerConfig {
        url: url.to_string(),
        username: "joe".to_string(),
        password: "sesame".to_string(),
        api_version: "1.16.1".to_string(),
    })
}

fn artist(id: &str) -> Artist {
    Artist { id: id.to_string(), name: format!("Artist {id}"), album_count: 2, cover_art: None }
}

fn inner(status: &str) -> SubsonicResponseInner {
    SubsonicResponseInner {
        status: status.to_string(),
        error: None,
        artists: None,
        artist: None,
        album: None,
    }
}

fn reply(inner: SubsonicResponseInner) -> SubsonicResponse {
    SubsonicResponse { subsonic_response: inner }
}

#[test]
fn tokens_are_md5_of_password_and_salt() {
    assert_eq!(make_token("sesame", "c19b2d"), "26719a1196d2a940705a59634eb18eab");
    assert_eq!(make_token("", ""), "d41d8cd98f00b204e9800998ecf8427e");
    assert_eq!(make_token("sesame", "c19b2e").len(), 32);
    assert_ne!(make_token("sesame", "c19b2e"), make_token("sesame", "c19b2d"));
}

#[test]
fn tokens_take_the_bytes_of_the_text() {
    assert_eq!(make_token("pä", "ss"), hex_of(&md5::compute("päss".as_bytes()).0));
}

#[test]
fn digests_in_hexadecimal() {
    assert_eq!(hex_of(&[]), "");
    assert_eq!(hex_of(&[0, 1, 0xab, 0xff]), "0001abff");
}

#[test]
fn salts_are_eight_hexadecimal_digits() {
    assert_eq!(salt_from_nanos(0), "00000000");
    assert_eq!(salt_from_nanos(999_999_999), "3b9ac9ff");
    assert_ne!(salt_from_nanos(1), salt_from_nanos(16));
    let salt = random_salt();
    assert_eq!(salt.len(), 8);
    let nanos = u32::from_str_radix(&salt, 16).unwrap();
    assert!(nanos < 1_000_000_000);
    assert_eq!(salt, salt_from_nanos(nanos));
}

#[test]
fn salts_follow_the_clock() {
    let first = random_salt();
    let mut moved = false;
    for _ in 0..1_000_000 {
        if random_salt() != first {
            moved = true;
            break;
        }
    }
    assert!(moved);
}

#[test]
fn addresses_of_endpoints() {
    assert_eq!(client("http://h:4533").url("getArtists"), "http://h:4533/rest/getArtists");
    assert_eq!(client("http://h:4533/").url("ping"), "http://h:4533/rest/ping");
    assert_eq!(client("http://h:4533///").url("ping"), "http://h:4533/rest/ping");
    assert_eq!(client("").url("ping"), "/rest/ping");
}

#[test]
fn every_request_carries_the_base_parameters() {
    let params = client("http://h").base_params_with("tok".to_string(), "salt".to_string());
    let expected = vec![
        ("u", "joe".to_string()),
        ("t", "tok".to_string()),
        ("s", "salt".to_string()),
        ("v", "1.16.1".to_string()),
        ("c", "navipod".to_string()),
        ("f", "json".to_string()),
    ];
    assert_eq!(params, expected);
}

#[test]
fn requests_are_signed_with_their_own_salt() {
    let request = client("http://h/").artist_albums_request("ar-1");
    assert_eq!(request.url, "http://h/rest/getArtist");
    assert_eq!(request.params.len(), 7);
    assert_eq!(request.params[6], ("id", "ar-1".to_string()));
    let salt = &request.params[2].1;
    assert_eq!(request.params[1].1, make_token("sesame", salt));
    let all = client("http://h").artists_request();
    assert_eq!(all.url, "http://h/rest/getArtists");
    assert_eq!(all.params.len(), 6);
    let tracks = client("http://h").album_tracks_request("al-2");
    assert_eq!(tracks.url, "http://h/rest/getAlbum");
    assert_eq!(tracks.params[6], ("id", "al-2".to_string()));
    assert_eq!(client("http://h").base_params().len(), 6);
}

#[test]
fn media_addresses() {
    let c = client("http://h/");
    assert_eq!(
        c.stream_url_with("tok", "salt", "tr-1"),
        "http://h/rest/stream?u=joe&t=tok&s=salt&v=1.16.1&c=navipod&id=tr-1"
    );
    assert_eq!(
        c.cover_art_url_with("tok", "salt", "co-1", Some(200)),
        "http://h/rest/getCoverArt?u=joe&t=tok&s=salt&v=1.16.1&c=navipod&id=co-1&size=200"
    );
    assert_eq!(
        c.cover_art_url_with("tok", "salt", "co-1", None),
        "http://h/rest/getCoverArt?u=joe&t=tok&s=salt&v=1.16.1&c=navipod&id=co-1"
    );
}

#[test]
fn signed_media_addresses() {
    let c = client("http://h");
    let url = c.stream_url("tr-1");
    let salt = url.split("&s=").nth(1).unwrap().split('&').next().unwrap();
    assert_eq!(url, c.stream_url_with(&make_token("sesame", salt), salt, "tr-1"));
    let url = c.cover_art_url("co-1", Some(200));
    let salt = url.split("&s=").nth(1).unwrap().split('&').next().unwrap();
    assert_eq!(url, c.cover_art_url_with(&make_token("sesame", salt), salt, "co-1", Some(200)));
}

#[test]
fn artists_come_letter_by_letter() {
    let mut ok = inner("ok");
    ok.artists = Some(ArtistsWrapper {
        index: vec![
            ArtistIndex { artist: vec![artist("1"), artist("2")] },
            ArtistIndex { artist: vec![] },
            ArtistIndex { artist: vec![artist("3")] },
        ],
    });
    let artists = reply(ok).into_artists().unwrap();
    let ids: Vec<&str> = artists.iter().map(|a| a.id.as_str()).collect();
    assert_eq!(ids, ["1", "2", "3"]);
    assert!(reply(inner("ok")).into_artists().unwrap().is_empty());
}

#[test]
fn albums_and_tracks_of_a_reply() {
    let album = Album {
        id: "al".to_string(),
        name: "Album".to_string(),
        artist: None,
        year: Some(1999),
        song_count: 3,
        cover_art: None,
    };
    let track = Track {
        id: "tr".to_string(),
        title: "Track".to_string(),
        artist: None,
        album: None,
        duration: Some(61),
        cover_art: None,
        track_number: None,
    };
    let mut ok = inner("ok");
    ok.artist = Some(ArtistDetail { album: vec![album] });
    ok.album = Some(AlbumDetail { song: vec![track] });
    assert_eq!(reply(ok).into_albums().unwrap()[0].id, "al");
    let mut ok = inner("ok");
    ok.album = Some(AlbumDetail { song: vec![] });
    assert!(reply(ok).into_tracks().unwrap().is_empty());
    assert!(reply(inner("ok")).into_albums().unwrap().is_empty());
    assert!(reply(inner("ok")).into_tracks().unwrap().is_empty());
}

#[test]
fn failed_replies_carry_the_servers_message() {
    let mut failed = inner("failed");
    failed.error = Some(ApiError { message: "Wrong username or password".to_string() });
    failed.artists = Some(ArtistsWrapper { index: vec![] });
    let message = "Subsonic API error: Wrong username or password";
    assert_eq!(reply(failed).into_artists().unwrap_err().message, message);
    assert_eq!(
        reply(inner("failed")).check().unwrap_err().message,
        "Subsonic API error: unknown error"
    );
    assert_eq!(
        reply(inner("OK")).into_albums().unwrap_err().message,
        "Subsonic API error: unknown error"
    );
    assert!(reply(inner("failed")).into_tracks().is_err());
    assert!(reply(inner("ok")).check().is_ok());
}
