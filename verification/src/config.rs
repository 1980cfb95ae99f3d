//! The configuration, and what stands in for the parts that a file leaves out.

use vstd::prelude::*;

verus! {

#[derive(Debug)]
pub struct Config {
    pub server: ServerConfig,
    pub ui: UiConfig,
}

#[derive(Debug)]
pub struct ServerConfig {
    pub url: String,
    pub username: String,
    pub password: String,
    /// Subsonic API version to advertise (default: "1.16.1")
    pub api_version: String,
}

#[derive(Debug)]
pub struct UiConfig {
    /// "liquid_glass" | "material" | "classic_ipod"
    pub theme: String,
}

/// What a configuration file says: the `[server]` table must give the address
/// and the account, the rest may be missing.
#[derive(Debug)]
pub struct ConfigDocument {
    pub url: String,
    pub username: String,
    pub password: String,
    pub api_version: Option<String>,
    /// The `[ui]` table.
    pub ui: Option<UiDocument>,
}

#[derive(Debug)]
pub struct UiDocument {
    pub theme: Option<String>,
}

pub struct ServerConfigView {
    pub url: Seq<char>,
    pub username: Seq<char>,
    pub password: Seq<char>,
    pub api_version: Seq<char>,
}

/// A configuration: how the server is reached, and the theme.
pub struct ConfigView {
    pub server: ServerConfigView,
    pub theme: Seq<char>,
}

/// What a configuration file says. A theme can only be given in a `[ui]` table.
pub struct DocumentView {
    pub url: Seq<char>,
    pub username: Seq<char>,
    pub password: Seq<char>,
    pub api_version: Option<Seq<char>>,
    pub ui: Option<Option<Seq<char>>>,
}

impl DeepView for Config {
    type V = ConfigView;

    open spec fn deep_view(&self) -> ConfigView {
        ConfigView { server: self.server.deep_view(), theme: self.ui.theme@ }
    }
}

impl DeepView for UiDocument {
    type V = Option<Seq<char>>;

    open spec fn deep_view(&self) -> Option<Seq<char>> {
        self.theme.deep_view()
    }
}

impl DeepView for ConfigDocument {
    type V = DocumentView;

    open spec fn deep_view(&self) -> DocumentView {
        DocumentView {
            url: self.url@,
            username: self.username@,
            password: self.password@,
            api_version: self.api_version.deep_view(),
            ui: self.ui.deep_view(),
        }
    }
}

/// The configuration that a file stands for. A missing API version is the default
/// one, and a missing `[ui]` table, or one without a theme, asks for the default
/// theme.
pub open spec fn config_of(document: DocumentView) -> ConfigView {
    ConfigView {
        server: ServerConfigView {
            url: document.url,
            username: document.username,
            password: document.password,
            api_version: match document.api_version {
                Some(version) => version,
                None => "1.16.1"@,
            },
        },
        theme: match document.ui {
            Some(Some(theme)) => theme,
            _ => "liquid_glass"@,
        },
    }
}

/// What the file says that is written where there is none yet.
pub open spec fn template_document() -> DocumentView {
    DocumentView {
        url: "http://your-subsonic-server:4533"@,
        username: "admin"@,
        password: "changeme"@,
        api_version: None,
        ui: Some(Some("liquid_glass"@)),
    }
}

/// A file that gives these four settings, with a note on the themes.
pub open spec fn file_of(
    url: Seq<char>,
    username: Seq<char>,
    password: Seq<char>,
    theme: Seq<char>,
) -> Seq<char> {
    "[server]\nurl = \""@ + url + "\"\nusername = \""@ + username + "\"\npassword = \""@ + password
        + "\"\n\n[ui]\ntheme = \""@ + theme
        + "\"   # liquid_glass | material | classic_ipod\n"@
}

impl DeepView for ServerConfig {
    type V = ServerConfigView;

    open spec fn deep_view(&self) -> ServerConfigView {
        ServerConfigView {
            url: self.url@,
            username: self.username@,
            password: self.password@,
            api_version: self.api_version@,
        }
    }
}

impl Clone for ServerConfig {
    fn clone(&self) -> (r: Self)
        ensures
            r == *self,
    {
        ServerConfig {
            url: self.url.clone(),
            username: self.username.clone(),
            password: self.password.clone(),
            api_version: self.api_version.clone(),
        }
    }
}

impl Clone for UiConfig {
    fn clone(&self) -> (r: Self)
        ensures
            r == *self,
    {
        UiConfig { theme: self.theme.clone() }
    }
}

impl Clone for Config {
    fn clone(&self) -> (r: Self)
        ensures
            r == *self,
    {
        Config { server: self.server.clone(), ui: self.ui.clone() }
    }
}

/// Without a `[ui]` table the default theme is asked for.
impl Default for UiConfig {
    fn default() -> (r: Self)
        ensures
            r.theme@ == "liquid_glass"@,
    {
        UiConfig { theme: default_theme() }
    }
}

pub fn default_api_version() -> (r: String)
    ensures
        r@ == "1.16.1"@,
{
    "1.16.1".to_string()
}

pub fn default_theme() -> (r: String)
    ensures
        r@ == "liquid_glass"@,
{
    "liquid_glass".to_string()
}

/// The file that is written where there is none yet.
pub fn config_template() -> (r: &'static str)
    ensures
        r@ == file_of(
            template_document().url,
            template_document().username,
            template_document().password,
            "liquid_glass"@,
        ),
        r@
            == "[server]\nurl = \"http://your-subsonic-server:4533\"\nusername = \"admin\"\npassword = \"changeme\"\n\n[ui]\ntheme = \"liquid_glass\"   # liquid_glass | material | classic_ipod\n"@,
{
    let text = "[server]\nurl = \"http://your-subsonic-server:4533\"\nusername = \"admin\"\npassword = \"changeme\"\n\n[ui]\ntheme = \"liquid_glass\"   # liquid_glass | material | classic_ipod\n";
    proof {
        reveal_strlit("[server]\nurl = \"http://your-subsonic-server:4533\"\nusername = \"admin\"\npassword = \"changeme\"\n\n[ui]\ntheme = \"liquid_glass\"   # liquid_glass | material | classic_ipod\n");
        reveal_strlit("[server]\nurl = \"");
        reveal_strlit("http://your-subsonic-server:4533");
        reveal_strlit("\"\nusername = \"");
        reveal_strlit("admin");
        reveal_strlit("\"\npassword = \"");
        reveal_strlit("changeme");
        reveal_strlit("\"\n\n[ui]\ntheme = \"");
        reveal_strlit("liquid_glass");
        reveal_strlit("\"   # liquid_glass | material | classic_ipod\n");
    }
    assert(text@ =~= file_of(
        template_document().url,
        template_document().username,
        template_document().password,
        "liquid_glass"@,
    ));
    text
}

impl Config {
    /// The configuration that a file stands for. A missing API version is the
    /// default one, and a missing `[ui]` table, or one without a theme, asks for
    /// the default theme.
    pub fn from_document(doc: ConfigDocument) -> (r: Config)
        ensures
            r.deep_view() == config_of(doc.deep_view()),
    {
        let api_version: String = match doc.api_version {
            Some(v) => v,
            None => default_api_version(),
        };
        let ui: UiConfig = match doc.ui {
            Some(u) => match u.theme {
                Some(t) => UiConfig { theme: t },
                None => UiConfig { theme: default_theme() },
            },
            None => UiConfig::default(),
        };
        Config {
            server: ServerConfig {
                url: doc.url,
                username: doc.username,
                password: doc.password,
                api_version,
            },
            ui,
        }
    }
}

// ── Laws ─────────────────────────────────────────────────────────────────────

/// The file that is written where there is none yet gives a configuration as it
/// stands: its address and account, the default API version and the default theme.
pub proof fn law_template_is_a_configuration()
    ensures
        config_of(template_document()) == (ConfigView {
            server: ServerConfigView {
                url: "http://your-subsonic-server:4533"@,
                username: "admin"@,
                password: "changeme"@,
                api_version: "1.16.1"@,
            },
            theme: "liquid_glass"@,
        }),
{
}

/// What a file leaves out is the same as what the defaults say outright.
pub proof fn law_defaults_stand_in(document: DocumentView)
    ensures
        document.api_version is None ==> config_of(document) == config_of(
            (DocumentView { api_version: Some("1.16.1"@), ..document }),
        ),
        document.ui is None || document.ui == Some(None::<Seq<char>>) ==> config_of(document)
            == config_of((DocumentView { ui: Some(Some("liquid_glass"@)), ..document })),
{
}

/// What a file gives is taken as it is: the address, the account and, where they are
/// given, the API version and the theme.
pub proof fn law_files_are_taken_as_they_are(
    document: DocumentView,
    version: Seq<char>,
    theme: Seq<char>,
)
    ensures
        config_of(document).server.url == document.url,
        config_of(document).server.username == document.username,
        config_of(document).server.password == document.password,
        document.api_version == Some(version) ==> config_of(document).server.api_version
            == version,
        document.api_version is None ==> config_of(document).server.api_version == "1.16.1"@,
        document.ui == Some(Some(theme)) ==> config_of(document).theme == theme,
        document.ui is None || document.ui->0 is None ==> config_of(document).theme
            == "liquid_glass"@,
{
}

} // verus!
