//! Downloading repository metadata: what is asked of the network and the file system, and
//! in which order.
use vstd::prelude::*;
use std::path::PathBuf;
use crate::metadata::{Checksum, ChecksumModel, ChecksumType};
use crate::text::opt_str_view;
use crate::urls::{carries_token, download_url_of, query_can_change, try_download_url};

verus! {

/// How metadata is downloaded.
pub struct FetchConfig {
    /// An access token, sent as the query of every request.
    pub auth_token: Option<String>,
    /// Whether proxy settings of the environment are followed.
    pub allow_env_var: bool,
    pub user_agent: Option<String>,
    /// Whether certificates of servers are verified.
    pub verify_tls: bool,
    pub tls_client_cert: Option<PathBuf>,
    pub tls_client_key: Option<PathBuf>,
    pub tls_ca_cert: Option<PathBuf>,
    /// Whether all metadata files are downloaded rather than the usual ones.
    pub all: bool,
}

impl FetchConfig {
    /// No token, agent or certificates; certificates of servers are verified, proxy settings
    /// of the environment are not followed, and the usual metadata files are downloaded.
    pub fn new() -> (r: Self)
        ensures
            r.auth_token is None,
            !r.allow_env_var,
            r.user_agent is None,
            r.verify_tls,
            r.tls_client_cert is None,
            r.tls_client_key is None,
            r.tls_ca_cert is None,
            !r.all,
    {
        FetchConfig {
            auth_token: None,
            allow_env_var: false,
            user_agent: None,
            verify_tls: true,
            tls_client_cert: None,
            tls_client_key: None,
            tls_ca_cert: None,
            all: false,
        }
    }

    /// How the HTTP client is to be set up.
    pub fn client_settings(&self) -> (r: ClientSettings<'_>)
        ensures
            match r.user_agent {
                Some(agent) => self.user_agent matches Some(a) && agent@ == a@,
                None => self.user_agent is None,
            },
            r.no_proxy == !self.allow_env_var,
            r.accept_invalid_certs == !self.verify_tls,
            match r.ca_cert {
                Some(path) => self.tls_ca_cert == Some(*path),
                None => self.tls_ca_cert is None,
            },
            match r.client_cert {
                Some(path) => self.tls_client_cert == Some(*path),
                None => self.tls_client_cert is None,
            },
            match r.client_key {
                Some(path) => self.tls_client_cert is Some && self.tls_client_key == Some(*path),
                None => self.tls_client_cert is None || self.tls_client_key is None,
            },
    {
        ClientSettings {
            user_agent: match &self.user_agent {
                Some(agent) => Some(agent.as_str()),
                None => None,
            },
            no_proxy: !self.allow_env_var,
            accept_invalid_certs: !self.verify_tls,
            ca_cert: self.tls_ca_cert.as_ref(),
            client_cert: self.tls_client_cert.as_ref(),
            client_key: match &self.tls_client_cert {
                Some(_) => self.tls_client_key.as_ref(),
                None => None,
            },
        }
    }
}

/// How the HTTP client is to be set up.
pub struct ClientSettings<'a> {
    pub user_agent: Option<&'a str>,
    pub no_proxy: bool,
    pub accept_invalid_certs: bool,
    /// The file of an additional root certificate.
    pub ca_cert: Option<&'a PathBuf>,
    /// The file of the client's certificate.
    pub client_cert: Option<&'a PathBuf>,
    /// The file of the client's key; there is none without a certificate.
    pub client_key: Option<&'a PathBuf>,
}

/// The client's identity in one text: the certificate, and the key on a line of its own
/// behind it, where there is one.
pub open spec fn identity_text(cert: Seq<u8>, key: Option<Seq<u8>>) -> Seq<u8> {
    match key {
        Some(k) => cert.push(10) + k,
        None => cert,
    }
}

/// The client's identity in one text.
pub fn identity_pem(cert: Vec<u8>, key: Option<&Vec<u8>>) -> (r: Vec<u8>)
    ensures
        r@ == identity_text(
            cert@,
            match key {
                Some(k) => Some(k@),
                None => None,
            },
        ),
{
    let mut pem: Vec<u8> = cert;
    if let Some(k) = key {
        pem.push(10);
        let ghost front = pem@;
        let mut i: usize = 0;
        assert(front + k@.take(0) =~= front);
        while i < k.len()
            invariant
                i <= k@.len(),
                pem@ == front + k@.take(i as int),
            decreases k@.len() - i,
        {
            pem.push(k[i]);
            i = i + 1;
            assert(pem@ =~= front + k@.take(i as int));
        }
        assert(k@.take(i as int) =~= k@);
    }
    pem
}

/// Why a download fails for reasons that lie in the metadata.
#[derive(Debug)]
pub enum FetchError {
    /// The path of a file makes no URL beside the base URL.
    UrlJoin { path: String, source: url::ParseError },
    /// The checksum of the file is of a kind that cannot be computed.
    UnknownChecksum(String),
    /// The downloaded file does not have the checksum that the repository states.
    ChecksumMismatch { path: String, expected: Checksum, actual: Checksum },
}

/// A metadata file: its path beside the base URL, and its checksum.
#[derive(Debug)]
pub struct MetadataRecord {
    pub path: String,
    pub checksum: Checksum,
}

/// A metadata file, with its texts.
#[verifier::ext_equal]
pub struct RecordModel {
    pub path: Seq<char>,
    pub checksum: ChecksumModel,
}

impl View for MetadataRecord {
    type V = RecordModel;

    open spec fn view(&self) -> RecordModel {
        RecordModel { path: self.path@, checksum: self.checksum@ }
    }
}

/// The metadata files that a repository index names.
#[derive(Debug)]
pub struct RepoIndex {
    /// All files, in the order of the index.
    pub records: Vec<MetadataRecord>,
    pub primary: Option<MetadataRecord>,
    pub filelists: Option<MetadataRecord>,
    pub other: Option<MetadataRecord>,
    pub updateinfo: Option<MetadataRecord>,
    pub comps: Option<MetadataRecord>,
}

/// The metadata files of a list, with their texts.
pub open spec fn record_models(list: Seq<MetadataRecord>) -> Seq<RecordModel> {
    list.map_values(|r: MetadataRecord| r@)
}

/// A file, where there is one, as a list.
pub open spec fn present(record: Option<MetadataRecord>) -> Seq<RecordModel> {
    match record {
        Some(r) => seq![r@],
        None => Seq::empty(),
    }
}

impl RepoIndex {
    /// The files to download, in order: all of them, or the usual ones as far as they are
    /// there.
    pub open spec fn wanted(self, all: bool) -> Seq<RecordModel> {
        if all {
            record_models(self.records@)
        } else {
            present(self.primary) + present(self.filelists) + present(self.other) + present(
                self.updateinfo,
            ) + present(self.comps)
        }
    }

    /// The files to download, in order.
    pub fn downloads(self, all: bool) -> (r: Vec<MetadataRecord>)
        ensures
            record_models(r@) == self.wanted(all),
    {
        if all {
            return self.records;
        }
        let mut list: Vec<MetadataRecord> = Vec::new();
        let ghost want = self.wanted(false);
        let RepoIndex { records: _, primary, filelists, other, updateinfo, comps } = self;
        add_present(&mut list, primary);
        add_present(&mut list, filelists);
        add_present(&mut list, other);
        add_present(&mut list, updateinfo);
        add_present(&mut list, comps);
        assert(record_models(list@) =~= want);
        list
    }
}

/// Appends a file, where there is one.
fn add_present(list: &mut Vec<MetadataRecord>, record: Option<MetadataRecord>)
    ensures
        record_models(final(list)@) == record_models(old(list)@) + present(record),
{
    if let Some(r) = record {
        list.push(r);
    }
    assert(record_models(list@) =~= record_models(old(list)@) + present(record));
}

/// The URL to download a file from, or `None` where the `url` crate cannot tell the positions
/// in it: they then exceed 32 bits. A token of characters that stand for themselves in a URL
/// is exactly its query.
pub fn file_url(base: &str, path: &str, token: Option<&str>) -> (r: Option<
    Result<String, FetchError>,
>)
    ensures
        match r {
            None => !query_can_change(base@, path@, opt_str_view(token)),
            Some(Ok(url)) => query_can_change(base@, path@, opt_str_view(token))
                && download_url_of(base@, path@, opt_str_view(token)) == Some(url@)
                && carries_token(url@, opt_str_view(token)),
            Some(Err(FetchError::UrlJoin { path: p, source: _ })) => query_can_change(
                base@,
                path@,
                opt_str_view(token),
            ) && download_url_of(base@, path@, opt_str_view(token)) is None && p@ == path@,
            Some(Err(_)) => false,
        },
{
    match try_download_url(base, path, token) {
        None => None,
        Some(Ok(url)) => Some(Ok(url)),
        Some(Err(source)) => Some(Err(FetchError::UrlJoin { path: path.to_owned(), source })),
    }
}

/// The path of the index beside the base URL.
pub open spec fn index_path() -> Seq<char> {
    "repodata/repomd.xml"@
}

/// What is to be done next.
#[derive(Debug)]
pub enum FetchAction {
    /// Download the file with this path beside the base URL.
    Download(String),
    /// Compute the checksum of the file with this path that was downloaded.
    ComputeChecksum(String, ChecksumType),
    /// Nothing more: all is there.
    Done,
}

/// What is to be done next, with its texts.
#[verifier::ext_equal]
pub enum ActionModel {
    Download(Seq<char>),
    ComputeChecksum(Seq<char>, ChecksumType),
    Done,
}

impl View for FetchAction {
    type V = ActionModel;

    open spec fn view(&self) -> ActionModel {
        match *self {
            FetchAction::Download(path) => ActionModel::Download(path@),
            FetchAction::ComputeChecksum(path, kind) => ActionModel::ComputeChecksum(path@, kind),
            FetchAction::Done => ActionModel::Done,
        }
    }
}

/// The action that begins with a list of files: the download of the first, if there is one.
pub open spec fn first_action(list: Seq<RecordModel>) -> ActionModel {
    if list.len() == 0 {
        ActionModel::Done
    } else {
        ActionModel::Download(list[0].path)
    }
}

/// A download of repository metadata under way: the files that are still to be downloaded
/// and compared with their checksums, the current one in front.
#[derive(Debug)]
pub struct Fetch {
    queue: Vec<MetadataRecord>,
    next: usize,
}

impl View for Fetch {
    type V = Seq<RecordModel>;

    closed spec fn view(&self) -> Seq<RecordModel> {
        record_models(self.queue@).skip(self.next as int)
    }
}

/// What to do first: nothing where the index is there already, else download it.
pub fn begin_fetch(index_exists: bool) -> (r: FetchAction)
    ensures
        r@ == (if index_exists {
            ActionModel::Done
        } else {
            ActionModel::Download(index_path())
        }),
{
    if index_exists {
        FetchAction::Done
    } else {
        FetchAction::Download("repodata/repomd.xml".to_owned())
    }
}

impl Fetch {
    /// The download's invariant.
    pub closed spec fn wf(self) -> bool {
        self.next <= self.queue@.len()
    }

    /// Goes on once the index was read: with the first of the files to download.
    pub fn index_read(index: RepoIndex, all: bool) -> (r: (Fetch, FetchAction))
        ensures
            r.0.wf(),
            r.0@ == index.wanted(all),
            r.1@ == first_action(index.wanted(all)),
    {
        let fetch = Fetch { queue: index.downloads(all), next: 0 };
        assert(fetch@ =~= index.wanted(all));
        let action = fetch.current();
        (fetch, action)
    }

    /// The download of the current file, if there is one.
    fn current(&self) -> (r: FetchAction)
        requires
            self.wf(),
        ensures
            r@ == first_action(self@),
    {
        if self.next < self.queue.len() {
            assert(self@[0] == self.queue@[self.next as int]@);
            FetchAction::Download(self.queue[self.next].path.clone())
        } else {
            FetchAction::Done
        }
    }

    /// Goes on once the current file was downloaded: with its checksum. A checksum that
    /// cannot be computed ends the download.
    pub fn downloaded(&self) -> (r: Result<FetchAction, FetchError>)
        requires
            self.wf(),
            self@.len() > 0,
        ensures
            match r {
                Ok(action) => self@[0].checksum.computable() matches Some(kind) && action@
                    == ActionModel::ComputeChecksum(self@[0].path, kind),
                Err(FetchError::UnknownChecksum(path)) => self@[0].checksum.computable() is None
                    && path@ == self@[0].path,
                Err(_) => false,
            },
    {
        let record: &MetadataRecord = &self.queue[self.next];
        assert(self@[0] == record@);
        match record.checksum.computable() {
            Some(kind) => Ok(FetchAction::ComputeChecksum(record.path.clone(), kind)),
            None => Err(FetchError::UnknownChecksum(record.path.clone())),
        }
    }

    /// Goes on once the checksum of the current file was computed: with the next file. A
    /// checksum other than the stated one ends the download.
    pub fn checksum_computed(&mut self, actual: &Checksum) -> (r: Result<FetchAction, FetchError>)
        requires
            old(self).wf(),
            old(self)@.len() > 0,
        ensures
            final(self).wf(),
            match r {
                Ok(action) => actual@ == old(self)@[0].checksum && final(self)@ == old(
                    self,
                )@.drop_first() && action@ == first_action(old(self)@.drop_first()),
                Err(FetchError::ChecksumMismatch { path, expected, actual: got }) => actual@
                    != old(self)@[0].checksum && path@ == old(self)@[0].path && expected@ == old(
                    self,
                )@[0].checksum && got@ == actual@ && final(self)@ == old(self)@,
                Err(_) => false,
            },
    {
        let record: &MetadataRecord = &self.queue[self.next];
        assert(self@[0] == record@);
        if !record.checksum.same(actual) {
            return Err(
                FetchError::ChecksumMismatch {
                    path: record.path.clone(),
                    expected: record.checksum.copy(),
                    actual: actual.copy(),
                },
            );
        }
        let count: usize = self.queue.len();
        assert(self.next < count);
        self.next = self.next + 1;
        assert(self@ =~= old(self)@.drop_first());
        Ok(self.current())
    }
}

/// The files that are still to be downloaded after a run of answers that agree.
pub open spec fn after_answers(list: Seq<RecordModel>, answers: Seq<ChecksumModel>) -> Seq<
    RecordModel,
>
    decreases answers.len(),
{
    if answers.len() == 0 || list.len() == 0 || answers[0] != list[0].checksum {
        list
    } else {
        after_answers(list.drop_first(), answers.drop_first())
    }
}

/// A download that goes through leaves no file unverified: once there is nothing more to do,
/// every file was compared with its checksum and agreed.
pub proof fn done_means_verified(list: Seq<RecordModel>, answers: Seq<ChecksumModel>)
    requires
        answers.len() <= list.len(),
        first_action(after_answers(list, answers)) == ActionModel::Done,
    ensures
        answers.len() == list.len(),
        forall|i: int| 0 <= i < list.len() ==> answers[i] == (#[trigger] list[i]).checksum,
    decreases answers.len(),
{
    if answers.len() > 0 && answers[0] == list[0].checksum {
        done_means_verified(list.drop_first(), answers.drop_first());
        assert forall|i: int| 0 <= i < list.len() implies answers[i] == (
        #[trigger] list[i]).checksum by {
            if i > 0 {
                assert(list.drop_first()[i - 1] == list[i]);
                assert(answers.drop_first()[i - 1] == answers[i]);
            }
        }
    }
}

/// Files are downloaded in order, each once: after the first `k` files agreed with their
/// checksums, the next is asked for, and after the last there is nothing more to do.
pub proof fn downloaded_in_order(list: Seq<RecordModel>, k: int)
    requires
        0 <= k <= list.len(),
    ensures
        after_answers(list, checksums(list.take(k))) == list.skip(k),
        first_action(list.skip(k)) == (if k < list.len() {
            ActionModel::Download(list[k].path)
        } else {
            ActionModel::Done
        }),
    decreases k,
{
    if k == 0 {
        assert(list.skip(0) =~= list);
    } else {
        let answers = checksums(list.take(k));
        downloaded_in_order(list.drop_first(), k - 1);
        assert(answers[0] == list[0].checksum);
        assert(answers.drop_first() =~= checksums(list.drop_first().take(k - 1)));
        assert(list.drop_first().skip(k - 1) =~= list.skip(k));
    }
}

/// The checksums of files.
pub open spec fn checksums(list: Seq<RecordModel>) -> Seq<ChecksumModel> {
    list.map_values(|r: RecordModel| r.checksum)
}

} // verus!
