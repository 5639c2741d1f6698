//! The connection artifact: the configuration document that the
//! remote-desktop client opens to start a session.
//!
//! The document is plain text, one `key:type:value` directive on each
//! line, every line ended by a carriage return and a line feed. Three
//! directives carry the target: `full address`, `username` and `domain`.
//! All others are session policy and the same for every host. The secret is
//! no part of the document: the client finds it in the secret store, under
//! the host's scope key.

use vstd::prelude::*;
use crate::identity::{Identity, IdentityText};
use crate::keyed::Keyed;

verus! {

/// The directives before the target address, and the key of the address.
pub const ARTIFACT_HEAD: &'static str =
    "screen mode id:i:2\r\ndesktopwidth:i:1920\r\ndesktopheight:i:1080\r\nsession bpp:i:32\r\nfull address:s:";

/// The directives between the target address and the account, and the key
/// of the account.
pub const ARTIFACT_POLICY: &'static str =
    "\r\ncompression:i:1\r\nkeyboardhook:i:2\r\naudiocapturemode:i:1\r\nvideoplaybackmode:i:1\r\nconnection type:i:2\r\nnetworkautodetect:i:1\r\nbandwidthautodetect:i:1\r\nenableworkspacereconnect:i:1\r\ndisable wallpaper:i:0\r\nallow desktop composition:i:0\r\nallow font smoothing:i:0\r\ndisable full window drag:i:1\r\ndisable menu anims:i:1\r\ndisable themes:i:0\r\ndisable cursor setting:i:0\r\nbitmapcachepersistenable:i:1\r\naudiomode:i:0\r\nredirectprinters:i:1\r\nredirectcomports:i:0\r\nredirectsmartcards:i:1\r\nredirectclipboard:i:1\r\nredirectposdevices:i:0\r\nautoreconnection enabled:i:1\r\nauthentication level:i:2\r\nprompt for credentials:i:0\r\nnegotiate security layer:i:1\r\nremoteapplicationmode:i:0\r\nalternate shell:s:\r\nshell working directory:s:\r\ngatewayhostname:s:\r\ngatewayusagemethod:i:4\r\ngatewaycredentialssource:i:4\r\ngatewayprofileusagemethod:i:0\r\npromptcredentialonce:i:1\r\nuse redirection server name:i:0\r\nrdgiskdcproxy:i:0\r\nkdcproxyname:s:\r\nusername:s:";

/// The end of the account's line, and the key of the realm.
pub const ARTIFACT_REALM: &'static str = "\r\ndomain:s:";

/// The end of the realm's line, and the directives after it.
pub const ARTIFACT_TAIL: &'static str =
    "\r\nenablecredsspsupport:i:1\r\npublic mode:i:0\r\ncert ignore:i:1\r\n";

/// What ends the name of an artifact's file.
pub const ARTIFACT_EXTENSION: &'static str = ".rdp";

/// The directory of the application, beneath the user's application data.
pub const APPLICATION_DIRECTORY: &'static str = "QuickRDP";

/// The directory of the artifacts, beneath the application's.
pub const CONNECTIONS_DIRECTORY: &'static str = "Connections";

/// The document for a session to `hostname` as `identity`.
pub open spec fn artifact_text(hostname: Seq<char>, identity: IdentityText) -> Seq<char> {
    ARTIFACT_HEAD@ + hostname + ARTIFACT_POLICY@ + identity.account + ARTIFACT_REALM@
        + identity.realm + ARTIFACT_TAIL@
}

/// The name of the file that holds the document for `hostname`.
pub open spec fn artifact_file_name(hostname: Seq<char>) -> Seq<char> {
    hostname + ARTIFACT_EXTENSION@
}

/// A rendered connection artifact: the name of its file within the
/// connections directory, and the document to write there in place of
/// whatever the file held.
#[derive(Clone, Debug, PartialEq, Eq)]
pub struct ConnectionArtifact {
    pub file_name: String,
    pub content: String,
}

/// Renders connection artifacts.
pub struct ConnectionArtifactBuilder;

impl ConnectionArtifactBuilder {
    /// The document for a session to `hostname` as `identity`.
    pub fn render(hostname: &str, identity: &Identity) -> (content: String)
        ensures
            content@ == artifact_text(hostname@, identity@),
    {
        let mut content = String::from_str(ARTIFACT_HEAD);
        content.append(hostname);
        content.append(ARTIFACT_POLICY);
        content.append(identity.account.as_str());
        content.append(ARTIFACT_REALM);
        content.append(identity.realm.as_str());
        content.append(ARTIFACT_TAIL);
        content
    }

    /// The name of the file that holds the document for `hostname`.
    pub fn file_name(hostname: &str) -> (name: String)
        ensures
            name@ == artifact_file_name(hostname@),
    {
        let mut name = String::from_str(hostname);
        name.append(ARTIFACT_EXTENSION);
        name
    }

    /// The artifact for a session to `hostname` as `identity`.
    pub fn build(hostname: &str, identity: &Identity) -> (artifact: ConnectionArtifact)
        ensures
            artifact.file_name@ == artifact_file_name(hostname@),
            artifact.content@ == artifact_text(hostname@, identity@),
    {
        ConnectionArtifact {
            file_name: ConnectionArtifactBuilder::file_name(hostname),
            content: ConnectionArtifactBuilder::render(hostname, identity),
        }
    }
}

/// The contents of a connections directory: the document in each file.
pub type Folder = Map<Seq<char>, Seq<char>>;

/// The folder after the artifact for `hostname` is built into it: the
/// file of the host holds the new document, whatever it held before.
pub open spec fn built(folder: Folder, hostname: Seq<char>, identity: IdentityText) -> Folder {
    folder.insert(artifact_file_name(hostname), artifact_text(hostname, identity))
}

/// The connections directory as an owned image: one file for each host,
/// written anew with every build.
pub struct ArtifactFolder {
    files: Keyed<String>,
}

impl View for ArtifactFolder {
    type V = Folder;

    closed spec fn view(&self) -> Folder {
        self.files@.map_values(|content: String| content@)
    }
}

impl ArtifactFolder {
    /// A directory without files.
    pub fn new() -> (folder: ArtifactFolder)
        ensures
            folder@ == Map::<Seq<char>, Seq<char>>::empty(),
    {
        let folder = ArtifactFolder { files: Keyed::new() };
        assert(folder@ =~= Map::<Seq<char>, Seq<char>>::empty());
        folder
    }

    /// Writes `artifact`: its file holds its document afterwards, in
    /// place of what it held.
    pub fn write(&mut self, artifact: ConnectionArtifact)
        ensures
            final(self)@ == old(self)@.insert(artifact.file_name@, artifact.content@),
    {
        let ghost before = self.files@;
        self.files.put(artifact.file_name.as_str(), artifact.content);
        assert(self@ =~= before.map_values(|content: String| content@).insert(
            artifact.file_name@,
            artifact.content@,
        ));
    }

    /// The document in the file named `file_name`, if there is such a
    /// file.
    pub fn read(&self, file_name: &str) -> (content: Option<String>)
        ensures
            match content {
                Some(text) => self@.dom().contains(file_name@) && text@ == self@[file_name@],
                None => !self@.dom().contains(file_name@),
            },
    {
        match self.files.get(file_name) {
            Some(text) => Some(text.clone()),
            None => None,
        }
    }

    /// Builds the artifact for a session to `hostname` as `identity` and
    /// writes it, and gives the name of its file.
    pub fn build(&mut self, hostname: &str, identity: &Identity) -> (file_name: String)
        ensures
            file_name@ == artifact_file_name(hostname@),
            final(self)@ == built(old(self)@, hostname@, identity@),
    {
        let artifact = ConnectionArtifactBuilder::build(hostname, identity);
        let file_name = artifact.file_name.clone();
        self.write(artifact);
        file_name
    }
}

/// A build for a host leaves in the host's file the whole document of
/// that build and nothing of an earlier one: to build twice is to build
/// the second time only.
pub proof fn lemma_rebuild_overwrites(
    folder: Folder,
    hostname: Seq<char>,
    first: IdentityText,
    second: IdentityText,
)
    ensures
        built(built(folder, hostname, first), hostname, second) == built(folder, hostname, second),
        built(built(folder, hostname, first), hostname, second)[artifact_file_name(hostname)]
            == artifact_text(hostname, second),
        built(folder, hostname, first).dom() == folder.dom().insert(artifact_file_name(hostname)),
{
    assert(built(built(folder, hostname, first), hostname, second) =~= built(
        folder,
        hostname,
        second,
    ));
}

} // verus!
