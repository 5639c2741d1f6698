//! Diagnostics: the switch that turns them on, and the text of an entry
//! in the diagnostics log.
//!
//! An entry is dated, tagged with its level and category, and carries
//! the message and its details. Errors come with their likely causes and
//! the steps to take, by category.

use vstd::prelude::*;
use crate::clock::Moment;
use crate::text::{chars_of, same_text, texts_of};

verus! {

/// The level of a failure.
pub const LEVEL_ERROR: &'static str = "ERROR";

/// The level of a warning.
pub const LEVEL_WARN: &'static str = "WARN";

/// The level of a piece of information.
pub const LEVEL_INFO: &'static str = "INFO";

/// The level of a detail for debugging.
pub const LEVEL_DEBUG: &'static str = "DEBUG";

/// The width to which the level of an entry is filled with spaces.
pub const LEVEL_WIDTH: usize = 8;

/// The category of entries on the connection to the directory.
pub const CATEGORY_CONNECTION: &'static str = "LDAP_CONNECTION";

/// The category of entries on the bind to the directory.
pub const CATEGORY_BIND: &'static str = "LDAP_BIND";

/// The category of entries on the directory search.
pub const CATEGORY_SEARCH: &'static str = "LDAP_SEARCH";

/// The category of entries on the global credential.
pub const CATEGORY_CREDENTIALS: &'static str = "CREDENTIALS";

/// The category of entries on the launch of a session.
pub const CATEGORY_LAUNCH: &'static str = "RDP_LAUNCH";

/// The category of entries on the persisted inventory.
pub const CATEGORY_INVENTORY: &'static str = "CSV_OPERATIONS";

/// The category of entries on the credential of a host.
pub const CATEGORY_HOST_CREDENTIALS: &'static str = "HOST_CREDENTIALS";

/// What begins the log of a new file.
pub const LOG_HEADER: &'static str =
    "================================================================================\nQuickRDP Debug Log\n================================================================================\nThis file contains detailed application logs and debugging information.\nGenerated when running QuickRDP with --debug or --debug-log argument.\n\nTo enable debug logging, run: QuickRDP.exe --debug\n\nLog Levels:\n  - INFO:  General informational messages\n  - WARN:  Warning messages that may require attention\n  - ERROR: Error messages indicating failures\n  - DEBUG: Detailed debugging information\n\n================================================================================\n\n";

/// What stands for the time of an entry whose time could not be told.
pub const UNDATED: &'static str = "(undated)";

/// What ends every entry.
pub const ENTRY_RULE: &'static str =
    "--------------------------------------------------------------------------------\n";

/// What follows the text of a warning.
pub const RECOMMENDATION: &'static str =
    "\nRecommendation: This warning may not prevent operation but should be investigated.\n";

/// What stands above the causes of an error.
pub const CAUSES_HEADING: &'static str = "\nPossible Causes:\n";

/// The context of an entry on the global credential.
pub const CONTEXT_CREDENTIALS: &'static str = "Credential Storage: Windows Credential Manager\n";

/// The context of an entry on the directory.
pub const CONTEXT_DIRECTORY: &'static str = "LDAP Port: 389\n";

/// What begins the context of an entry on a launch; the directory of the
/// connection artifacts follows.
pub const CONTEXT_LAUNCH: &'static str = "RDP Files Directory: ";

/// The likely causes of an error on the connection to the directory, and the steps to take.
pub const CAUSES_CONNECTION: &'static str =
    "  • LDAP server is not reachable or incorrect server name\n  • Port 389 is blocked by firewall\n  • Network connectivity issues\n  • DNS resolution failure for server name\n\nTroubleshooting Steps:\n  1. Verify server name is correct\n  2. Test network connectivity: ping <server>\n  3. Check firewall rules for port 389\n  4. Verify DNS resolution: nslookup <server>\n";

/// The likely causes of an error on the bind to the directory, and the steps to take.
pub const CAUSES_BIND: &'static str =
    "  • Invalid credentials (username or password)\n  • Account is locked or disabled\n  • Username format is incorrect\n  • Insufficient permissions for LDAP queries\n  • Anonymous bind is disabled on the domain controller\n\nTroubleshooting Steps:\n  1. Verify credentials are correct\n  2. Try different username formats: DOMAIN\\username or username@domain.com\n  3. Check if account is locked or disabled in Active Directory\n  4. Verify account has permission to query AD\n";

/// The likely causes of an error on the directory search, and the steps to take.
pub const CAUSES_SEARCH: &'static str =
    "  • Base DN is incorrect or domain name is wrong\n  • LDAP filter syntax error\n  • Insufficient permissions to search the directory\n  • No Windows Server computers found in the domain\n  • Connection was lost during search\n\nTroubleshooting Steps:\n  1. Verify domain name is correct\n  2. Check LDAP filter syntax\n  3. Verify account has read permissions on computer objects\n";

/// The likely causes of an error on the global credential, and the steps to take.
pub const CAUSES_CREDENTIALS: &'static str =
    "  • Windows Credential Manager access denied\n  • Credential storage is corrupted\n  • Insufficient permissions to access credentials\n\nTroubleshooting Steps:\n  1. Run application as administrator\n  2. Check Windows Credential Manager (Control Panel > Credential Manager)\n  3. Try removing and re-adding credentials\n";

/// The likely causes of an error on the launch of a session, and the steps to take.
pub const CAUSES_LAUNCH: &'static str =
    "  • mstsc.exe (RDP client) is not available or corrupted\n  • RDP file creation failed (permissions or disk space)\n  • RDP file directory is not accessible\n  • Malformed RDP file content\n\nTroubleshooting Steps:\n  1. Verify mstsc.exe exists in System32\n  2. Check disk space in AppData folder\n  3. Verify file permissions in %APPDATA%\\QuickRDP\\Connections\n  4. Try running as administrator\n";

/// The likely causes of an error on the persisted inventory, and the steps to take.
pub const CAUSES_INVENTORY: &'static str =
    "  • File permissions issue\n  • Disk space is full\n  • File is locked by another process\n  • Invalid CSV format or corrupted file\n\nTroubleshooting Steps:\n  1. Close any programs that may have hosts.csv open\n  2. Check disk space\n  3. Verify file permissions\n  4. Check if antivirus is blocking file access\n";

/// The likely causes of an error on the credential of a host, and the steps to take.
pub const CAUSES_HOST_CREDENTIALS: &'static str =
    "  • Failed to save/retrieve per-host credentials\n  • Credential format is invalid\n  • Permission denied\n\nTroubleshooting Steps:\n  1. Check Windows Credential Manager for TERMSRV/* entries\n  2. Try running as administrator\n  3. Verify hostname is valid\n";

/// The likely causes of an error of any other category, and the steps to take.
pub const CAUSES_OTHER: &'static str =
    "  • Check system event logs for more details\n  • Verify application has necessary permissions\n  • Try running as administrator\n";

/// The argument that switches diagnostics on.
pub const DEBUG_ARGUMENT: &'static str = "--debug";

/// The other argument that switches diagnostics on.
pub const DEBUG_LOG_ARGUMENT: &'static str = "--debug-log";

/// Whether the arguments of the program ask for diagnostics.
pub open spec fn debug_requested_by(arguments: Seq<Seq<char>>) -> bool {
    exists|i: int|
        0 <= i < arguments.len() && (#[trigger] arguments[i] == DEBUG_ARGUMENT@ || arguments[i]
            == DEBUG_LOG_ARGUMENT@)
}

/// Whether the arguments of the program ask for diagnostics.
pub fn debug_requested(arguments: &Vec<String>) -> (requested: bool)
    ensures
        requested == debug_requested_by(texts_of(arguments@)),
{
    let mut i: usize = 0;
    while i < arguments.len()
        invariant
            i <= arguments@.len(),
            forall|j: int|
                0 <= j < i ==> #[trigger] texts_of(arguments@)[j] != DEBUG_ARGUMENT@
                    && texts_of(arguments@)[j] != DEBUG_LOG_ARGUMENT@,
        decreases arguments@.len() - i,
    {
        if same_text(arguments[i].as_str(), DEBUG_ARGUMENT) || same_text(
            arguments[i].as_str(),
            DEBUG_LOG_ARGUMENT,
        ) {
            assert(texts_of(arguments@)[i as int] == arguments@[i as int]@);
            return true;
        }
        i += 1;
    }
    false
}

/// Whether diagnostics are written. Off until switched on.
#[derive(Clone, Copy, Debug, PartialEq, Eq)]
pub struct Diagnostics {
    pub debug_enabled: bool,
}

/// The text of an optional string.
pub open spec fn text_of_option(text: Option<&str>) -> Option<Seq<char>> {
    match text {
        Some(t) => Some(t@),
        None => None,
    }
}

/// The mark that stands for a level.
pub open spec fn indicator_of(level: Seq<char>) -> Seq<char> {
    if level == LEVEL_ERROR@ {
        "[!]"@
    } else if level == LEVEL_WARN@ {
        "[*]"@
    } else if level == LEVEL_INFO@ {
        "[i]"@
    } else if level == LEVEL_DEBUG@ {
        "[d]"@
    } else {
        "[?]"@
    }
}

/// `count` spaces.
pub open spec fn spaces(count: nat) -> Seq<char> {
    Seq::new(count, |i: int| ' ')
}

/// The level, filled with spaces to `LEVEL_WIDTH` characters where it is
/// shorter.
pub open spec fn padded_level_of(level: Seq<char>) -> Seq<char> {
    if level.len() < LEVEL_WIDTH {
        level + spaces((LEVEL_WIDTH - level.len()) as nat)
    } else {
        level
    }
}

/// The line of the details, if there are any.
pub open spec fn details_of(details: Option<Seq<char>>) -> Seq<char> {
    match details {
        Some(text) => "Details: "@ + text + "\n"@,
        None => Seq::empty(),
    }
}

/// What an entry says of its surroundings, by category: where the
/// connection artifacts lie, for a launch, if that is known; where
/// credentials are kept; which port the directory is reached on.
pub open spec fn context_of(category: Seq<char>, artifacts: Option<Seq<char>>) -> Seq<char> {
    if category == CATEGORY_LAUNCH@ {
        match artifacts {
            Some(directory) => CONTEXT_LAUNCH@ + directory + "\n"@,
            None => Seq::empty(),
        }
    } else if category == CATEGORY_CREDENTIALS@ {
        CONTEXT_CREDENTIALS@
    } else if category == CATEGORY_CONNECTION@ || category == CATEGORY_BIND@ || category
        == CATEGORY_SEARCH@ {
        CONTEXT_DIRECTORY@
    } else {
        Seq::empty()
    }
}

/// The likely causes of an error, by category.
pub open spec fn causes_of(category: Seq<char>) -> Seq<char> {
    if category == CATEGORY_CONNECTION@ {
        CAUSES_CONNECTION@
    } else if category == CATEGORY_BIND@ {
        CAUSES_BIND@
    } else if category == CATEGORY_SEARCH@ {
        CAUSES_SEARCH@
    } else if category == CATEGORY_CREDENTIALS@ {
        CAUSES_CREDENTIALS@
    } else if category == CATEGORY_LAUNCH@ {
        CAUSES_LAUNCH@
    } else if category == CATEGORY_INVENTORY@ {
        CAUSES_INVENTORY@
    } else if category == CATEGORY_HOST_CREDENTIALS@ {
        CAUSES_HOST_CREDENTIALS@
    } else {
        CAUSES_OTHER@
    }
}

/// What an entry adds for its level: the causes of an error, the
/// recommendation for a warning, nothing otherwise.
pub open spec fn advice_of(level: Seq<char>, category: Seq<char>) -> Seq<char> {
    if level == LEVEL_ERROR@ {
        CAUSES_HEADING@ + causes_of(category)
    } else if level == LEVEL_WARN@ {
        RECOMMENDATION@
    } else {
        Seq::empty()
    }
}

/// The text of an entry.
pub open spec fn entry_of(
    timestamp: Seq<char>,
    level: Seq<char>,
    category: Seq<char>,
    message: Seq<char>,
    details: Option<Seq<char>>,
    artifacts: Option<Seq<char>>,
) -> Seq<char> {
    "\n"@ + timestamp + " "@ + indicator_of(level) + " ["@ + padded_level_of(level) + "] ["@
        + category + "]\n"@ + "Message: "@ + message + "\n"@ + details_of(details) + context_of(
        category,
        artifacts,
    ) + advice_of(level, category) + ENTRY_RULE@
}

/// The mark that stands for `level`.
pub fn indicator(level: &str) -> (mark: String)
    ensures
        mark@ == indicator_of(level@),
{
    if same_text(level, LEVEL_ERROR) {
        String::from_str("[!]")
    } else if same_text(level, LEVEL_WARN) {
        String::from_str("[*]")
    } else if same_text(level, LEVEL_INFO) {
        String::from_str("[i]")
    } else if same_text(level, LEVEL_DEBUG) {
        String::from_str("[d]")
    } else {
        String::from_str("[?]")
    }
}

/// `level`, filled with spaces to `LEVEL_WIDTH` characters.
pub fn padded_level(level: &str) -> (padded: String)
    ensures
        padded@ == padded_level_of(level@),
{
    let mut padded = String::from_str(level);
    let mut length: usize = chars_of(level).len();
    if length < LEVEL_WIDTH {
        let ghost start = length;
        assert(padded@ =~= level@ + spaces(0));
        while length < LEVEL_WIDTH
            invariant
                start <= length <= LEVEL_WIDTH,
                start == level@.len(),
                padded@ == level@ + spaces((length - start) as nat),
            decreases LEVEL_WIDTH - length,
        {
            padded.push(' ');
            length += 1;
            assert(padded@ =~= level@ + spaces((length - start) as nat));
        }
    }
    padded
}

/// The line of the details, if there are any.
pub fn details_line(details: Option<&str>) -> (line: String)
    ensures
        line@ == details_of(text_of_option(details)),
{
    match details {
        Some(text) => {
            let mut line = String::from_str("Details: ");
            line.append(text);
            line.append("\n");
            line
        },
        None => String::new(),
    }
}

/// What an entry of `category` says of its surroundings.
pub fn context(category: &str, artifacts: Option<&str>) -> (lines: String)
    ensures
        lines@ == context_of(category@, text_of_option(artifacts)),
{
    if same_text(category, CATEGORY_LAUNCH) {
        match artifacts {
            Some(directory) => {
                let mut lines = String::from_str(CONTEXT_LAUNCH);
                lines.append(directory);
                lines.append("\n");
                lines
            },
            None => String::new(),
        }
    } else if same_text(category, CATEGORY_CREDENTIALS) {
        String::from_str(CONTEXT_CREDENTIALS)
    } else if same_text(category, CATEGORY_CONNECTION) || same_text(category, CATEGORY_BIND)
        || same_text(category, CATEGORY_SEARCH) {
        String::from_str(CONTEXT_DIRECTORY)
    } else {
        String::new()
    }
}

/// The likely causes of an error of `category`.
pub fn causes(category: &str) -> (lines: String)
    ensures
        lines@ == causes_of(category@),
{
    if same_text(category, CATEGORY_CONNECTION) {
        String::from_str(CAUSES_CONNECTION)
    } else if same_text(category, CATEGORY_BIND) {
        String::from_str(CAUSES_BIND)
    } else if same_text(category, CATEGORY_SEARCH) {
        String::from_str(CAUSES_SEARCH)
    } else if same_text(category, CATEGORY_CREDENTIALS) {
        String::from_str(CAUSES_CREDENTIALS)
    } else if same_text(category, CATEGORY_LAUNCH) {
        String::from_str(CAUSES_LAUNCH)
    } else if same_text(category, CATEGORY_INVENTORY) {
        String::from_str(CAUSES_INVENTORY)
    } else if same_text(category, CATEGORY_HOST_CREDENTIALS) {
        String::from_str(CAUSES_HOST_CREDENTIALS)
    } else {
        String::from_str(CAUSES_OTHER)
    }
}

/// What an entry adds for its level.
pub fn advice(level: &str, category: &str) -> (lines: String)
    ensures
        lines@ == advice_of(level@, category@),
{
    if same_text(level, LEVEL_ERROR) {
        let mut lines = String::from_str(CAUSES_HEADING);
        let listed = causes(category);
        lines.append(listed.as_str());
        lines
    } else if same_text(level, LEVEL_WARN) {
        String::from_str(RECOMMENDATION)
    } else {
        String::new()
    }
}

/// The text of an entry dated `timestamp`.
pub fn entry_text(
    timestamp: &str,
    level: &str,
    category: &str,
    message: &str,
    details: Option<&str>,
    artifacts: Option<&str>,
) -> (text: String)
    ensures
        text@ == entry_of(
            timestamp@,
            level@,
            category@,
            message@,
            text_of_option(details),
            text_of_option(artifacts),
        ),
{
    let mark = indicator(level);
    let padded = padded_level(level);
    let detail = details_line(details);
    let surroundings = context(category, artifacts);
    let advised = advice(level, category);
    let mut text = String::from_str("\n");
    text.append(timestamp);
    text.append(" ");
    text.append(mark.as_str());
    text.append(" [");
    text.append(padded.as_str());
    text.append("] [");
    text.append(category);
    text.append("]\n");
    text.append("Message: ");
    text.append(message);
    text.append("\n");
    text.append(detail.as_str());
    text.append(surroundings.as_str());
    text.append(advised.as_str());
    text.append(ENTRY_RULE);
    text
}

impl Diagnostics {
    /// Diagnostics switched off.
    pub fn new() -> (diagnostics: Diagnostics)
        ensures
            !diagnostics.debug_enabled,
    {
        Diagnostics { debug_enabled: false }
    }

    /// The entry to append to the log, dated `timestamp`, or marked as
    /// undated where there is no timestamp: none while diagnostics are
    /// switched off.
    pub fn entry_dated(
        &self,
        timestamp: Option<&str>,
        level: &str,
        category: &str,
        message: &str,
        details: Option<&str>,
        artifacts: Option<&str>,
    ) -> (text: Option<String>)
        ensures
            text.is_some() == self.debug_enabled,
            text matches Some(t) ==> t@ == entry_of(
                match timestamp {
                    Some(time) => time@,
                    None => UNDATED@,
                },
                level@,
                category@,
                message@,
                text_of_option(details),
                text_of_option(artifacts),
            ),
    {
        if self.debug_enabled {
            let time = match timestamp {
                Some(time) => time,
                None => UNDATED,
            };
            Some(entry_text(time, level, category, message, details, artifacts))
        } else {
            None
        }
    }

    /// The entry to append to the log, dated now in local time at
    /// `utc_offset`: none while diagnostics are switched off. Where the
    /// clock gives no time that can be put into text, the entry is marked
    /// as undated.
    pub fn entry(
        &self,
        utc_offset: i32,
        level: &str,
        category: &str,
        message: &str,
        details: Option<&str>,
        artifacts: Option<&str>,
    ) -> (text: Option<String>)
        ensures
            text.is_some() == self.debug_enabled,
            text matches Some(t) ==> exists|timestamp: Seq<char>|
                t@ == entry_of(
                    timestamp,
                    level@,
                    category@,
                    message@,
                    text_of_option(details),
                    text_of_option(artifacts),
                ),
    {
        if !self.debug_enabled {
            return None;
        }
        let timestamp = match Moment::now(utc_offset) {
            Some(moment) => moment.diagnostics_time(),
            None => None,
        };
        match timestamp {
            Some(time) => self.entry_dated(
                Some(time.as_str()),
                level,
                category,
                message,
                details,
                artifacts,
            ),
            None => self.entry_dated(None, level, category, message, details, artifacts),
        }
    }
}

/// Switches diagnostics on or off.
pub fn set_debug_mode(diagnostics: &mut Diagnostics, enabled: bool)
    ensures
        final(diagnostics).debug_enabled == enabled,
{
    diagnostics.debug_enabled = enabled;
}

} // verus!
