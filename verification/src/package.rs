//! Where packages come from, and how their files are downloaded.

use vstd::pervasive::unreached;
use vstd::prelude::*;
use vstd::string::StringExecFns;

use crate::text::{ends_with, has_prefix, has_suffix, starts_with, strip_prefix};

verus! {

/// A file that a package is offered as.
#[derive(Clone, Debug)]
pub struct PackageFile {
    pub file_name: String,
    pub file_size: i64,
    /// Servers that have the file, the preferred one first.
    pub cdn_root_paths: Vec<String>,
    /// Where the file stands on each of them.
    pub relative_url: String,
}

impl PackageFile {
    /// The address of the file on the preferred server.
    pub open spec fn url(&self) -> Seq<char> {
        self.cdn_root_paths@[0]@ + self.relative_url@
    }

    /// The address of the file on the preferred server, if any server has it.
    pub fn preferred_url(&self) -> (r: Option<String>)
        ensures
            r is Some <==> self.cdn_root_paths@.len() > 0,
            r matches Some(url) ==> url@ == self.url(),
    {
        if self.cdn_root_paths.len() == 0 {
            return None;
        }
        let mut url = String::from_str(&self.cdn_root_paths[0]);
        url.append(&self.relative_url);
        Some(url)
    }
}

/// Whatever the file is called, the address that is asked for begins with the first server, and
/// exactly the file's place on that server stands behind it. Only a file that no server has is
/// without an address.
pub proof fn an_address_is_the_first_server_and_the_place_on_it(file: PackageFile, r: Option<String>)
    requires
        call_ensures(PackageFile::preferred_url, (&file,), r),
    ensures
        file.cdn_root_paths@.len() == 0 ==> r is None,
        file.cdn_root_paths@.len() > 0 ==> {
            let root = file.cdn_root_paths@[0]@;
            &&& r is Some
            &&& r->0@.len() == root.len() + file.relative_url@.len()
            &&& r->0@.take(root.len() as int) == root
            &&& r->0@.skip(root.len() as int) == file.relative_url@
        },
{
    if file.cdn_root_paths@.len() > 0 {
        let root = file.cdn_root_paths@[0]@;
        assert(r->0@.take(root.len() as int) =~= root);
        assert(r->0@.skip(root.len() as int) =~= file.relative_url@);
    }
}

/// A hexadecimal digit.
pub open spec fn is_hex_digit(c: char) -> bool {
    '0' <= c <= '9' || 'a' <= c <= 'f' || 'A' <= c <= 'F'
}

/// A UUID with hyphens: 8, 4, 4, 4 and 12 hexadecimal digits with hyphens between them.
pub open spec fn is_hyphenated_uuid(s: Seq<char>) -> bool {
    &&& s.len() == 36
    &&& forall|i: int|
        0 <= i < 36 ==> if i == 8 || i == 13 || i == 18 || i == 23 {
            #[trigger] s[i] == '-'
        } else {
            is_hex_digit(s[i])
        }
}

/// `urn:uuid:`, in letters of either case.
pub open spec fn is_urn_prefix(s: Seq<char>) -> bool {
    &&& s.len() == 9
    &&& s[0] == 'u' || s[0] == 'U'
    &&& s[1] == 'r' || s[1] == 'R'
    &&& s[2] == 'n' || s[2] == 'N'
    &&& s[3] == ':'
    &&& s[4] == 'u' || s[4] == 'U'
    &&& s[5] == 'u' || s[5] == 'U'
    &&& s[6] == 'i' || s[6] == 'I'
    &&& s[7] == 'd' || s[7] == 'D'
    &&& s[8] == ':'
}

/// The text of a UUID: 32 hexadecimal digits, or a UUID with hyphens, which may stand in braces or
/// behind `urn:uuid:`.
pub open spec fn is_uuid(s: Seq<char>) -> bool {
    ||| s.len() == 32 && forall|i: int| 0 <= i < 32 ==> is_hex_digit(#[trigger] s[i])
    ||| is_hyphenated_uuid(s)
    ||| s.len() == 38 && s[0] == '{' && s[37] == '}' && is_hyphenated_uuid(s.subrange(1, 37))
    ||| s.len() == 45 && is_urn_prefix(s.take(9)) && is_hyphenated_uuid(s.skip(9))
}

/// `uuid::Uuid::try_parse`: takes the four forms that a UUID has as text, and nothing else.
#[verifier::external_body]
fn parses_as_uuid(text: &str) -> (r: bool)
    ensures
        r == is_uuid(text@),
{
    uuid::Uuid::try_parse(text).is_ok()
}

/// Where a package is to be taken from.
#[derive(Clone, Debug)]
pub enum PackageSource {
    /// A file on this machine, by its path.
    Local(String),
    /// An address on the network.
    Url(String),
    /// The package of a content, by its id.
    Content(String),
    /// The package of a product, whose content has to be looked up first.
    Product(String),
}

/// A `PackageSource` by its characters.
pub enum PackageSourceView {
    Local(Seq<char>),
    Url(Seq<char>),
    Content(Seq<char>),
    Product(Seq<char>),
}

impl View for PackageSource {
    type V = PackageSourceView;

    open spec fn view(&self) -> PackageSourceView {
        match self {
            PackageSource::Local(s) => PackageSourceView::Local(s@),
            PackageSource::Url(s) => PackageSourceView::Url(s@),
            PackageSource::Content(s) => PackageSourceView::Content(s@),
            PackageSource::Product(s) => PackageSourceView::Product(s@),
        }
    }
}

/// What a user means by a source: a `file://` path, a `http://` or `https://` address, the UUID of
/// a content, or else a product.
pub open spec fn source_of(source: Seq<char>) -> PackageSourceView {
    if has_prefix(source, "file://"@) {
        PackageSourceView::Local(source.skip("file://"@.len() as int))
    } else if has_prefix(source, "http://"@) || has_prefix(source, "https://"@) {
        PackageSourceView::Url(source)
    } else if is_uuid(source) {
        PackageSourceView::Content(source)
    } else {
        PackageSourceView::Product(source)
    }
}

/// Finds out what a user means by a source.
pub fn classify_source(source: String) -> (r: PackageSource)
    ensures
        r@ == source_of(source@),
{
    if let Some(path) = strip_prefix(&source, "file://") {
        return PackageSource::Local(path);
    }
    if starts_with(&source, "http://") || starts_with(&source, "https://") {
        return PackageSource::Url(source);
    }
    if parses_as_uuid(&source) {
        PackageSource::Content(source)
    } else {
        PackageSource::Product(source)
    }
}

/// Whether the file is a package that can be streamed.
pub open spec fn is_streamable(file: PackageFile) -> bool {
    has_suffix(file.file_name@, ".msixvc"@)
}

/// `i` is where the first package that can be streamed stands.
pub open spec fn first_streamable(files: Seq<PackageFile>, i: int) -> bool {
    &&& 0 <= i < files.len()
    &&& is_streamable(files[i])
    &&& forall|j: int| 0 <= j < i ==> !is_streamable(#[trigger] files[j])
}

/// The address of the first package that can be streamed, or what to say if there is none. Some
/// server has to have that package.
pub fn streaming_url(files: &Vec<PackageFile>) -> (r: Result<String, String>)
    requires
        forall|i: int| #[trigger]
            first_streamable(files@, i) ==> files@[i].cdn_root_paths@.len() > 0,
    ensures
        r is Err <==> forall|i: int| 0 <= i < files@.len() ==> !is_streamable(#[trigger] files@[i]),
        r is Err ==> forall|i: int| 0 <= i < files@.len() ==> !is_streamable(#[trigger] files@[i]),
        r is Ok ==> exists|i: int| 0 <= i < files@.len() && is_streamable(#[trigger] files@[i]),
        r matches Ok(url) ==> exists|i: int| #[trigger]
            first_streamable(files@, i) && url@ == files@[i].url(),
        r matches Err(e) ==> e@ == "No .msixvc file found"@,
{
    let mut i: usize = 0;
    while i < files.len()
        invariant
            i <= files@.len(),
            forall|j: int| 0 <= j < i ==> !is_streamable(#[trigger] files@[j]),
            forall|k: int| #[trigger]
                first_streamable(files@, k) ==> files@[k].cdn_root_paths@.len() > 0,
        decreases files@.len() - i,
    {
        if ends_with(&files[i].file_name, ".msixvc") {
            assert(first_streamable(files@, i as int));
            match files[i].preferred_url() {
                Some(url) => {
                    return Ok(url);
                },
                None => {
                    return unreached();
                },
            }
        }
        i += 1;
    }
    Err(String::from_str("No .msixvc file found"))
}

/// Whether `count` chosen files are enough to go on, or what to say if they are not.
pub fn validate_selection(count: usize) -> (r: Result<(), String>)
    ensures
        r is Ok <==> count > 0,
        r matches Err(e) ==> e@ == "At least one item has to be selected"@,
{
    if count > 0 {
        Ok(())
    } else {
        Err(String::from_str("At least one item has to be selected"))
    }
}

/// What has happened while a file is downloaded.
pub enum DownloadEvent {
    /// It is the file's turn.
    Reached,
    /// The server has agreed to send it.
    Requested,
    /// The request failed.
    RequestFailed(String),
    /// The file to write to is open.
    Opened,
    /// It could not be opened.
    OpenFailed(String),
    /// A piece of the file has come.
    ChunkRead,
    /// The transfer broke.
    ChunkFailed(String),
    /// The piece is written.
    ChunkWritten,
    /// It could not be written.
    WriteFailed(String),
    /// All has come.
    StreamEnded,
}

/// What to do to download a file.
pub enum DownloadAction {
    /// Ask a server for this address.
    Request { url: String },
    /// Only say which address would be asked for, and end well.
    PrintUrl { url: String },
    /// Open the file to write to, emptied.
    OpenFile,
    /// Wait for the next piece.
    NextChunk,
    /// Write the piece that has come.
    WriteChunk,
    /// Go on to the next file.
    NextFile,
    /// End with this message.
    Fail { message: String },
    /// Remove what was written, and end with this message.
    RemoveAndFail { message: String },
}

/// A `DownloadAction` by its characters.
pub enum DownloadActionView {
    Request { url: Seq<char> },
    PrintUrl { url: Seq<char> },
    OpenFile,
    NextChunk,
    WriteChunk,
    NextFile,
    Fail { message: Seq<char> },
    RemoveAndFail { message: Seq<char> },
}

impl View for DownloadAction {
    type V = DownloadActionView;

    open spec fn view(&self) -> DownloadActionView {
        match self {
            DownloadAction::Request { url } => DownloadActionView::Request { url: url@ },
            DownloadAction::PrintUrl { url } => DownloadActionView::PrintUrl { url: url@ },
            DownloadAction::OpenFile => DownloadActionView::OpenFile,
            DownloadAction::NextChunk => DownloadActionView::NextChunk,
            DownloadAction::WriteChunk => DownloadActionView::WriteChunk,
            DownloadAction::NextFile => DownloadActionView::NextFile,
            DownloadAction::Fail { message } => DownloadActionView::Fail { message: message@ },
            DownloadAction::RemoveAndFail { message } => DownloadActionView::RemoveAndFail {
                message: message@,
            },
        }
    }
}

/// What follows on an event while `file` is downloaded.
pub open spec fn download_action(
    file: PackageFile,
    dry_run: bool,
    event: DownloadEvent,
) -> DownloadActionView {
    let name = file.file_name@;
    match event {
        DownloadEvent::Reached => if file.cdn_root_paths@.len() == 0 {
            DownloadActionView::Fail {
                message: "'"@ + name + "' has no CDN root paths to download from"@,
            }
        } else if dry_run {
            DownloadActionView::PrintUrl { url: file.url() }
        } else {
            DownloadActionView::Request { url: file.url() }
        },
        DownloadEvent::Requested => DownloadActionView::OpenFile,
        DownloadEvent::RequestFailed(e) => DownloadActionView::Fail {
            message: "Failed to request '"@ + name + "': "@ + e@,
        },
        DownloadEvent::Opened => DownloadActionView::NextChunk,
        DownloadEvent::OpenFailed(e) => DownloadActionView::Fail {
            message: "Could not open '"@ + name + "' for writing: "@ + e@,
        },
        DownloadEvent::ChunkRead => DownloadActionView::WriteChunk,
        DownloadEvent::ChunkFailed(e) => DownloadActionView::RemoveAndFail {
            message: "Download of '"@ + name + "' interrupted: "@ + e@,
        },
        DownloadEvent::ChunkWritten => DownloadActionView::NextChunk,
        DownloadEvent::WriteFailed(e) => DownloadActionView::RemoveAndFail {
            message: "Failed to write '"@ + name + "' to disk: "@ + e@,
        },
        DownloadEvent::StreamEnded => DownloadActionView::NextFile,
    }
}

fn sentence(before: &str, name: &str, between: &str, rest: &str) -> (out: String)
    ensures
        out@ == before@ + name@ + between@ + rest@,
{
    let mut out = String::from_str(before);
    out.append(name);
    out.append(between);
    out.append(rest);
    out
}

/// Decides what follows on an event while `file` is downloaded.
pub fn next_download_action(file: &PackageFile, dry_run: bool, event: DownloadEvent) -> (action:
    DownloadAction)
    ensures
        action@ == download_action(*file, dry_run, event),
{
    let name = &file.file_name;
    match event {
        DownloadEvent::Reached => match file.preferred_url() {
            None => {
                let mut message = String::from_str("'");
                message.append(name);
                message.append("' has no CDN root paths to download from");
                DownloadAction::Fail { message }
            },
            Some(url) => if dry_run {
                DownloadAction::PrintUrl { url }
            } else {
                DownloadAction::Request { url }
            },
        },
        DownloadEvent::Requested => DownloadAction::OpenFile,
        DownloadEvent::RequestFailed(e) => DownloadAction::Fail {
            message: sentence("Failed to request '", name, "': ", &e),
        },
        DownloadEvent::Opened => DownloadAction::NextChunk,
        DownloadEvent::OpenFailed(e) => DownloadAction::Fail {
            message: sentence("Could not open '", name, "' for writing: ", &e),
        },
        DownloadEvent::ChunkRead => DownloadAction::WriteChunk,
        DownloadEvent::ChunkFailed(e) => DownloadAction::RemoveAndFail {
            message: sentence("Download of '", name, "' interrupted: ", &e),
        },
        DownloadEvent::ChunkWritten => DownloadAction::NextChunk,
        DownloadEvent::WriteFailed(e) => DownloadAction::RemoveAndFail {
            message: sentence("Failed to write '", name, "' to disk: ", &e),
        },
        DownloadEvent::StreamEnded => DownloadAction::NextFile,
    }
}

/// The file to write to is open when the event comes.
pub open spec fn file_is_open(event: DownloadEvent) -> bool {
    match event {
        DownloadEvent::Opened => true,
        DownloadEvent::ChunkRead => true,
        DownloadEvent::ChunkFailed(_) => true,
        DownloadEvent::ChunkWritten => true,
        DownloadEvent::WriteFailed(_) => true,
        DownloadEvent::StreamEnded => true,
        _ => false,
    }
}

/// A download that fails leaves no part of a file behind: once the file is open, no event ends the
/// download without removing it. Before, there is nothing to remove, and what stood there before
/// stays.
pub proof fn a_failed_download_leaves_no_part(file: PackageFile, dry_run: bool, event: DownloadEvent)
    ensures
        file_is_open(event) ==> !(download_action(file, dry_run, event) is Fail),
        !file_is_open(event) ==> !(download_action(file, dry_run, event) is RemoveAndFail),
{
}

/// A dry run asks no server for anything.
pub proof fn a_dry_run_requests_nothing(file: PackageFile, event: DownloadEvent)
    ensures
        !(download_action(file, true, event) is Request),
{
}

/// What is streamed is the first of the files whose name ends in `.msixvc`: its address is its own
/// first server with its own place on it, whatever the other files are. Only where no name ends so,
/// there is nothing to stream.
pub proof fn the_first_package_by_its_ending_is_streamed(
    files: Vec<PackageFile>,
    r: Result<String, String>,
)
    requires
        call_ensures(streaming_url, (&files,), r),
    ensures
        r matches Ok(url) ==> exists|i: int|
            0 <= i < files@.len() && (#[trigger] files@[i]).file_name@.len() >= 7
                && files@[i].file_name@.skip(files@[i].file_name@.len() - 7) == ".msixvc"@ && url@
                == files@[i].cdn_root_paths@[0]@ + files@[i].relative_url@ && forall|j: int|
                0 <= j < i && (#[trigger] files@[j]).file_name@.len() >= 7
                    ==> files@[j].file_name@.skip(files@[j].file_name@.len() - 7) != ".msixvc"@,
        r is Err <==> forall|j: int|
            0 <= j < files@.len() && (#[trigger] files@[j]).file_name@.len() >= 7
                ==> files@[j].file_name@.skip(files@[j].file_name@.len() - 7) != ".msixvc"@,
{
    reveal_strlit(".msixvc");
    assert forall|f: PackageFile| #[trigger] is_streamable(f) <==> f.file_name@.len() >= 7
        && f.file_name@.skip(f.file_name@.len() - 7) == ".msixvc"@ by {
        if f.file_name@.len() >= 7 {
            assert(f.file_name@.skip(f.file_name@.len() - 7) =~= f.file_name@.subrange(
                f.file_name@.len() - 7,
                f.file_name@.len() as int,
            ));
        }
    }
    if r is Ok {
        let i = choose|i: int| #[trigger]
            first_streamable(files@, i) && r->Ok_0@ == files@[i].url();
        assert(is_streamable(files@[i]));
        assert forall|j: int|
            0 <= j < i && (#[trigger] files@[j]).file_name@.len() >= 7 implies files@[j].file_name@.skip(
            files@[j].file_name@.len() - 7,
        ) != ".msixvc"@ by {
            assert(!is_streamable(files@[j]));
        }
    } else {
        assert forall|j: int|
            0 <= j < files@.len() && (#[trigger] files@[j]).file_name@.len()
                >= 7 implies files@[j].file_name@.skip(files@[j].file_name@.len() - 7)
            != ".msixvc"@ by {
            assert(!is_streamable(files@[j]));
        }
    }
    if forall|j: int|
        0 <= j < files@.len() && (#[trigger] files@[j]).file_name@.len() >= 7
            ==> files@[j].file_name@.skip(files@[j].file_name@.len() - 7) != ".msixvc"@ {
        assert forall|j: int| 0 <= j < files@.len() implies !is_streamable(#[trigger] files@[j]) by {}
    }
}

/// A source keeps all of its characters, but for `file://` before a path. What it is taken for
/// depends on how it begins: `file://`, `http://` or `https://`; of the rest, the text of a UUID is a
/// content and anything else a product.
pub proof fn a_source_is_told_by_its_beginning(source: String, r: PackageSource)
    requires
        call_ensures(classify_source, (source,), r),
    ensures
        match r {
            PackageSource::Local(path) => source@ == "file://"@ + path@,
            PackageSource::Url(url) => url@ == source@,
            PackageSource::Content(id) => id@ == source@,
            PackageSource::Product(id) => id@ == source@,
        },
        r is Local <==> source@.len() >= 7 && source@.take(7) == "file://"@,
        r is Url <==> (source@.len() >= 7 && source@.take(7) == "http://"@) || (source@.len() >= 8
            && source@.take(8) == "https://"@),
        r is Content ==> is_uuid(source@),
        r is Product ==> !is_uuid(source@),
{
    reveal_strlit("file://");
    reveal_strlit("http://");
    reveal_strlit("https://");
    if source@.len() >= 7 {
        assert(source@.take(7) =~= source@.subrange(0, 7));
        assert(source@ =~= source@.take(7) + source@.skip(7));
        if source@.take(7) == "file://"@ {
            assert(source@.take(7)[0] == 'f');
            assert(source@[0] == 'f');
            if source@.len() >= 8 {
                assert(source@.take(8)[0] == 'f' && "https://"@[0] == 'h');
            }
            assert("http://"@[0] == 'h');
        }
    }
    if source@.len() >= 8 {
        assert(source@.take(8) =~= source@.subrange(0, 8));
    }
}

/// When it is a file's turn, its own address is asked for, or only shown in a dry run: the first
/// server with the file's place on it. A file that no server has ends the download, by its name.
pub proof fn a_download_asks_for_the_address_of_its_file(
    file: PackageFile,
    dry_run: bool,
    action: DownloadAction,
)
    requires
        call_ensures(next_download_action, (&file, dry_run, DownloadEvent::Reached), action),
    ensures
        match action {
            DownloadAction::Request { url } => !dry_run && file.cdn_root_paths@.len() > 0 && url@
                == file.cdn_root_paths@[0]@ + file.relative_url@,
            DownloadAction::PrintUrl { url } => dry_run && file.cdn_root_paths@.len() > 0 && url@
                == file.cdn_root_paths@[0]@ + file.relative_url@,
            DownloadAction::Fail { message } => file.cdn_root_paths@.len() == 0 && message@ == "'"@
                + file.file_name@ + "' has no CDN root paths to download from"@,
            _ => false,
        },
{
}

/// A download that goes well takes its steps in turn: the file is opened once the server has agreed,
/// each piece that comes is written before the next is waited for, and the end of the pieces is the
/// end of the file.
pub proof fn a_download_takes_its_steps_in_turn(
    file: PackageFile,
    dry_run: bool,
    event: DownloadEvent,
    action: DownloadAction,
)
    requires
        call_ensures(next_download_action, (&file, dry_run, event), action),
    ensures
        action is OpenFile <==> event is Requested,
        action is NextChunk <==> event is Opened || event is ChunkWritten,
        action is WriteChunk <==> event is ChunkRead,
        action is NextFile <==> event is StreamEnded,
        action is RemoveAndFail <==> event is ChunkFailed || event is WriteFailed,
        action is Fail ==> event is Reached || event is RequestFailed || event is OpenFailed,
        event is RequestFailed || event is OpenFailed ==> action is Fail,
{
}

/// A download that fails says what failed, for which file, and why.
pub proof fn a_failed_download_tells_file_and_cause(
    file: PackageFile,
    dry_run: bool,
    event: DownloadEvent,
    action: DownloadAction,
)
    requires
        call_ensures(next_download_action, (&file, dry_run, event), action),
    ensures
        match event {
            DownloadEvent::RequestFailed(e) => action matches DownloadAction::Fail { message }
                && message@ == "Failed to request '"@ + file.file_name@ + "': "@ + e@,
            DownloadEvent::OpenFailed(e) => action matches DownloadAction::Fail { message }
                && message@ == "Could not open '"@ + file.file_name@ + "' for writing: "@ + e@,
            DownloadEvent::ChunkFailed(e) => action matches DownloadAction::RemoveAndFail {
                message,
            } && message@ == "Download of '"@ + file.file_name@ + "' interrupted: "@ + e@,
            DownloadEvent::WriteFailed(e) => action matches DownloadAction::RemoveAndFail {
                message,
            } && message@ == "Failed to write '"@ + file.file_name@ + "' to disk: "@ + e@,
            _ => true,
        },
{
}

} // verus!
