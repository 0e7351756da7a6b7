//! The operation `getDataset`: the archive of one legislative session.

use crate::encoding::{
    decimal, lemma_decimal_injective, lemma_percent_encode_decimal,
    lemma_percent_encode_unreserved, percent_encode, push_decimal,
};
use crate::envelope::{envelope_verdict, handle_legiscan_response, reply_outcome, reply_view};
use crate::error::{Error, ErrorView};
use crate::json::{
    empty_object, from_integer, from_text, integer_at, integer_member, json_of, member, member_of,
    set_member, text_at, text_member, Json,
};
use crate::proxy::LegiscanProxy;
use crate::url::{
    build_url, lemma_query_fields, lemma_url_injective, params_view, query_fields, query_text,
    url_text,
};
use serde_json::Value;
use vstd::prelude::*;

verus! {

/// The archive of one session, as the service describes it.
#[derive(Debug, Clone, PartialEq, Eq)]
pub struct Dataset {
    pub state_id: i64,
    pub session_id: i64,
    pub session_name: String,
    pub dataset_hash: String,
    pub dataset_date: String,
    pub dataset_size: i64,
    pub mime_type: String,
    pub zip: String,
}

/// The envelope of a successful `getDataset` reply.
#[derive(Debug, Clone, PartialEq, Eq)]
pub struct GetDatasetResponse {
    pub status: String,
    pub dataset: Dataset,
}

/// A `Dataset` with its texts as character sequences.
pub struct DatasetView {
    pub state_id: i64,
    pub session_id: i64,
    pub session_name: Seq<char>,
    pub dataset_hash: Seq<char>,
    pub dataset_date: Seq<char>,
    pub dataset_size: i64,
    pub mime_type: Seq<char>,
    pub zip: Seq<char>,
}

/// A `GetDatasetResponse` with its texts as character sequences.
pub struct GetDatasetResponseView {
    pub status: Seq<char>,
    pub dataset: DatasetView,
}

impl View for Dataset {
    type V = DatasetView;

    open spec fn view(&self) -> DatasetView {
        DatasetView {
            state_id: self.state_id,
            session_id: self.session_id,
            session_name: self.session_name@,
            dataset_hash: self.dataset_hash@,
            dataset_date: self.dataset_date@,
            dataset_size: self.dataset_size,
            mime_type: self.mime_type@,
            zip: self.zip@,
        }
    }
}

impl View for GetDatasetResponse {
    type V = GetDatasetResponseView;

    open spec fn view(&self) -> GetDatasetResponseView {
        GetDatasetResponseView { status: self.status@, dataset: self.dataset@ }
    }
}

impl Default for Dataset {
    fn default() -> (d: Dataset)
        ensures
            d@ == (DatasetView {
                state_id: 0,
                session_id: 0,
                session_name: Seq::empty(),
                dataset_hash: Seq::empty(),
                dataset_date: Seq::empty(),
                dataset_size: 0,
                mime_type: Seq::empty(),
                zip: Seq::empty(),
            }),
    {
        Dataset {
            state_id: 0,
            session_id: 0,
            session_name: String::new(),
            dataset_hash: String::new(),
            dataset_date: String::new(),
            dataset_size: 0,
            mime_type: String::new(),
            zip: String::new(),
        }
    }
}

impl Default for GetDatasetResponse {
    fn default() -> (r: GetDatasetResponse)
        ensures
            r@.status == Seq::<char>::empty(),
            r@.dataset == (DatasetView {
                state_id: 0,
                session_id: 0,
                session_name: Seq::empty(),
                dataset_hash: Seq::empty(),
                dataset_date: Seq::empty(),
                dataset_size: 0,
                mime_type: Seq::empty(),
                zip: Seq::empty(),
            }),
    {
        GetDatasetResponse { status: String::new(), dataset: Dataset::default() }
    }
}

/// The dataset that a JSON object describes, or the name of the first
/// field, in the order of the struct, that the object lacks or holds with
/// another type. Members beyond the eight fields are passed over.
pub open spec fn dataset_of(j: Json) -> Result<DatasetView, Seq<char>> {
    if integer_member(j, "state_id"@) is None {
        Err("state_id"@)
    } else if integer_member(j, "session_id"@) is None {
        Err("session_id"@)
    } else if text_member(j, "session_name"@) is None {
        Err("session_name"@)
    } else if text_member(j, "dataset_hash"@) is None {
        Err("dataset_hash"@)
    } else if text_member(j, "dataset_date"@) is None {
        Err("dataset_date"@)
    } else if integer_member(j, "dataset_size"@) is None {
        Err("dataset_size"@)
    } else if text_member(j, "mime_type"@) is None {
        Err("mime_type"@)
    } else if text_member(j, "zip"@) is None {
        Err("zip"@)
    } else {
        Ok(
            DatasetView {
                state_id: integer_member(j, "state_id"@)->0,
                session_id: integer_member(j, "session_id"@)->0,
                session_name: text_member(j, "session_name"@)->0,
                dataset_hash: text_member(j, "dataset_hash"@)->0,
                dataset_date: text_member(j, "dataset_date"@)->0,
                dataset_size: integer_member(j, "dataset_size"@)->0,
                mime_type: text_member(j, "mime_type"@)->0,
                zip: text_member(j, "zip"@)->0,
            },
        )
    }
}

/// The typed envelope that a JSON object describes, or the name of the
/// first field that keeps it from being one: `status`, then `dataset`, then
/// the fields of the dataset.
pub open spec fn response_of(j: Json) -> Result<GetDatasetResponseView, Seq<char>> {
    match text_member(j, "status"@) {
        None => Err("status"@),
        Some(status) => match member_of(j, "dataset"@) {
            None => Err("dataset"@),
            Some(inner) => match dataset_of(inner) {
                Err(field) => Err(field),
                Ok(dataset) => Ok(GetDatasetResponseView { status, dataset }),
            },
        },
    }
}

/// The JSON object that describes a dataset: one member for each field,
/// under the field's name.
pub open spec fn dataset_json(d: DatasetView) -> Json {
    Json::Object(
        Map::empty().insert("state_id"@, Json::Integer(d.state_id as int)).insert(
            "session_id"@,
            Json::Integer(d.session_id as int),
        ).insert("session_name"@, Json::Text(d.session_name)).insert(
            "dataset_hash"@,
            Json::Text(d.dataset_hash),
        ).insert("dataset_date"@, Json::Text(d.dataset_date)).insert(
            "dataset_size"@,
            Json::Integer(d.dataset_size as int),
        ).insert("mime_type"@, Json::Text(d.mime_type)).insert("zip"@, Json::Text(d.zip)),
    )
}

/// The JSON object that describes a typed envelope.
pub open spec fn response_json(r: GetDatasetResponseView) -> Json {
    Json::Object(
        Map::empty().insert("status"@, Json::Text(r.status)).insert(
            "dataset"@,
            dataset_json(r.dataset),
        ),
    )
}

/// Reads the integer under `key`, which the payload must hold.
fn required_integer(v: &Value, key: &str) -> (r: Result<i64, Error>)
    ensures
        match integer_member(json_of(*v), key@) {
            Some(n) => r == Ok::<i64, Error>(n),
            None => r matches Err(e) && e@ == ErrorView::Deserialize(key@),
        },
{
    match integer_at(v, key) {
        Some(n) => Ok(n),
        None => Err(Error::Deserialize(key.to_owned())),
    }
}

/// Reads the text under `key`, which the payload must hold.
fn required_text(v: &Value, key: &str) -> (r: Result<String, Error>)
    ensures
        match text_member(json_of(*v), key@) {
            Some(t) => r matches Ok(s) && s@ == t,
            None => r matches Err(e) && e@ == ErrorView::Deserialize(key@),
        },
{
    match text_at(v, key) {
        Some(t) => Ok(t.to_owned()),
        None => Err(Error::Deserialize(key.to_owned())),
    }
}

impl Dataset {
    /// Reads a dataset from the JSON object that describes it. A field that
    /// is missing, or holds a value of another type, gives
    /// `Error::Deserialize` with the field's name.
    pub fn from_json(v: &Value) -> (r: Result<Dataset, Error>)
        ensures
            match dataset_of(json_of(*v)) {
                Ok(d) => r matches Ok(dataset) && dataset@ == d,
                Err(field) => r matches Err(e) && e@ == ErrorView::Deserialize(field),
            },
    {
        let state_id = required_integer(v, "state_id")?;
        let session_id = required_integer(v, "session_id")?;
        let session_name = required_text(v, "session_name")?;
        let dataset_hash = required_text(v, "dataset_hash")?;
        let dataset_date = required_text(v, "dataset_date")?;
        let dataset_size = required_integer(v, "dataset_size")?;
        let mime_type = required_text(v, "mime_type")?;
        let zip = required_text(v, "zip")?;
        Ok(
            Dataset {
                state_id,
                session_id,
                session_name,
                dataset_hash,
                dataset_date,
                dataset_size,
                mime_type,
                zip,
            },
        )
    }

    /// Writes the dataset as a JSON object, from which `from_json` reads the
    /// same dataset again.
    pub fn to_json(&self) -> (v: Value)
        ensures
            json_of(v) == dataset_json(self@),
            dataset_of(json_of(v)) == Ok::<DatasetView, Seq<char>>(self@),
    {
        proof {
            lemma_dataset_json_roundtrip(self@);
        }
        let mut object = empty_object();
        set_member(&mut object, "state_id".to_owned(), from_integer(self.state_id));
        set_member(&mut object, "session_id".to_owned(), from_integer(self.session_id));
        set_member(&mut object, "session_name".to_owned(), from_text(self.session_name.clone()));
        set_member(&mut object, "dataset_hash".to_owned(), from_text(self.dataset_hash.clone()));
        set_member(&mut object, "dataset_date".to_owned(), from_text(self.dataset_date.clone()));
        set_member(&mut object, "dataset_size".to_owned(), from_integer(self.dataset_size));
        set_member(&mut object, "mime_type".to_owned(), from_text(self.mime_type.clone()));
        set_member(&mut object, "zip".to_owned(), from_text(self.zip.clone()));
        object
    }
}

impl GetDatasetResponse {
    /// Reads the typed envelope from a decoded one.
    pub fn from_json(v: &Value) -> (r: Result<GetDatasetResponse, Error>)
        ensures
            match response_of(json_of(*v)) {
                Ok(typed) => r matches Ok(response) && response@ == typed,
                Err(field) => r matches Err(e) && e@ == ErrorView::Deserialize(field),
            },
    {
        let status = required_text(v, "status")?;
        match member(v, "dataset") {
            None => Err(Error::Deserialize("dataset".to_owned())),
            Some(inner) => {
                let dataset = Dataset::from_json(inner)?;
                Ok(GetDatasetResponse { status, dataset })
            },
        }
    }

    /// Writes the typed envelope as a JSON object, from which `from_json`
    /// reads the same envelope again.
    pub fn to_json(&self) -> (v: Value)
        ensures
            json_of(v) == response_json(self@),
            response_of(json_of(v)) == Ok::<GetDatasetResponseView, Seq<char>>(self@),
    {
        proof {
            lemma_response_json_roundtrip(self@);
        }
        let mut object = empty_object();
        set_member(&mut object, "status".to_owned(), from_text(self.status.clone()));
        set_member(&mut object, "dataset".to_owned(), self.dataset.to_json());
        object
    }
}

/// The URL of the request for the dataset of a session.
pub open spec fn dataset_url_text(
    base_url: Seq<char>,
    api_key: Seq<char>,
    session_id: int,
    access_key: Seq<char>,
) -> Seq<char> {
    base_url + "?key="@ + percent_encode(api_key) + "&op=getDataset&id="@ + decimal(session_id)
        + "&access_key="@ + percent_encode(access_key)
}

/// The parameters of the operation, in the order of the URL.
pub open spec fn dataset_params(session_id: int, access_key: Seq<char>) -> Seq<
    (Seq<char>, Seq<char>),
> {
    seq![("id"@, decimal(session_id)), ("access_key"@, access_key)]
}

/// The result of the operation, from the transport's outcome on: the
/// dataset of the typed envelope, or the first error on the way to it.
pub open spec fn dataset_outcome(reply: Result<Seq<char>, Seq<char>>) -> Result<
    DatasetView,
    ErrorView,
> {
    match reply_outcome(reply) {
        Err(e) => Err(e),
        Ok(j) => match response_of(j) {
            Ok(typed) => Ok(typed.dataset),
            Err(field) => Err(ErrorView::Deserialize(field)),
        },
    }
}

/// A result of the operation with its texts as character sequences.
pub open spec fn outcome_view(r: Result<Dataset, Error>) -> Result<DatasetView, ErrorView> {
    match r {
        Ok(d) => Ok(d@),
        Err(e) => Err(e@),
    }
}

/// How the literal pieces of the URL are made of the operation's tag and
/// parameter names, none of which needs encoding.
proof fn lemma_dataset_literals()
    ensures
        "?key="@ == seq!['?'] + "key="@,
        "&op=getDataset&id="@ == "&op="@ + "getDataset"@ + seq!['&'] + "id"@ + seq!['='],
        "&access_key="@ == seq!['&'] + "access_key"@ + seq!['='],
        "op=getDataset"@ == "op="@ + "getDataset"@,
        "id="@ == "id"@ + seq!['='],
        "access_key="@ == "access_key"@ + seq!['='],
        "&op="@ == seq!['&'] + "op="@,
        percent_encode("getDataset"@) == "getDataset"@,
        percent_encode("id"@) == "id"@,
        percent_encode("access_key"@) == "access_key"@,
{
    reveal_strlit("?key=");
    reveal_strlit("key=");
    reveal_strlit("&op=");
    reveal_strlit("op=");
    reveal_strlit("&op=getDataset&id=");
    reveal_strlit("op=getDataset");
    reveal_strlit("getDataset");
    reveal_strlit("id");
    reveal_strlit("id=");
    reveal_strlit("&access_key=");
    reveal_strlit("access_key");
    reveal_strlit("access_key=");
    let tag = seq!['g', 'e', 't', 'D', 'a', 't', 'a', 's', 'e', 't'];
    let id = seq!['i', 'd'];
    let access = seq!['a', 'c', 'c', 'e', 's', 's', '_', 'k', 'e', 'y'];
    let key = seq!['k', 'e', 'y', '='];
    let op = seq!['o', 'p', '='];
    assert("getDataset"@ =~= tag);
    assert("id"@ =~= id);
    assert("access_key"@ =~= access);
    assert("key="@ =~= key);
    assert("op="@ =~= op);
    assert("?key="@ =~= seq!['?'] + key);
    assert("&op="@ =~= seq!['&'] + op);
    assert("&op=getDataset&id="@ =~= seq!['&'] + op + tag + seq!['&'] + id + seq!['=']);
    assert(seq!['&'] + op + tag + seq!['&'] + id + seq!['='] =~= "&op="@ + "getDataset"@ + seq![
        '&',
    ] + "id"@ + seq!['=']);
    assert("&access_key="@ =~= seq!['&'] + access + seq!['=']);
    assert("op=getDataset"@ =~= op + tag);
    assert("id="@ =~= id + seq!['=']);
    assert("access_key="@ =~= access + seq!['=']);
    lemma_percent_encode_unreserved(tag);
    lemma_percent_encode_unreserved(id);
    lemma_percent_encode_unreserved(access);
}

/// The URL of the operation is the general request URL for the tag
/// `getDataset` and the parameters `id` and `access_key`.
pub proof fn lemma_dataset_url_form(
    base_url: Seq<char>,
    api_key: Seq<char>,
    session_id: int,
    access_key: Seq<char>,
)
    ensures
        dataset_url_text(base_url, api_key, session_id, access_key) == url_text(
            base_url,
            api_key,
            "getDataset"@,
            dataset_params(session_id, access_key),
        ),
{
    lemma_dataset_literals();
    lemma_percent_encode_decimal(session_id);
    let params = dataset_params(session_id, access_key);
    let one = params.drop_last();
    assert(one =~= seq![("id"@, decimal(session_id))]);
    assert(one.drop_last() =~= Seq::empty());
    let q0 = query_text(api_key, "getDataset"@, one.drop_last());
    let q1 = query_text(api_key, "getDataset"@, one);
    let q2 = query_text(api_key, "getDataset"@, params);
    assert(q0 == "key="@ + percent_encode(api_key) + "&op="@ + "getDataset"@);
    assert(q1 == q0 + seq!['&'] + ("id"@ + seq!['='] + decimal(session_id)));
    assert(q2 == q1 + seq!['&'] + ("access_key"@ + seq!['='] + percent_encode(access_key)));
    assert(dataset_url_text(base_url, api_key, session_id, access_key) =~= base_url + seq!['?']
        + q2);
}

/// Under one base address, two requests for a dataset with the same URL
/// were made with the same credential, for the same session and with the
/// same access key: requests that differ in any of these differ in their
/// URL.
pub proof fn lemma_dataset_url_injective(
    base_url: Seq<char>,
    api_key1: Seq<char>,
    session_id1: int,
    access_key1: Seq<char>,
    api_key2: Seq<char>,
    session_id2: int,
    access_key2: Seq<char>,
)
    requires
        dataset_url_text(base_url, api_key1, session_id1, access_key1) == dataset_url_text(
            base_url,
            api_key2,
            session_id2,
            access_key2,
        ),
    ensures
        api_key1 == api_key2,
        session_id1 == session_id2,
        access_key1 == access_key2,
{
    lemma_dataset_url_form(base_url, api_key1, session_id1, access_key1);
    lemma_dataset_url_form(base_url, api_key2, session_id2, access_key2);
    let params1 = dataset_params(session_id1, access_key1);
    let params2 = dataset_params(session_id2, access_key2);
    lemma_url_injective(
        base_url,
        api_key1,
        "getDataset"@,
        params1,
        api_key2,
        "getDataset"@,
        params2,
    );
    assert(params1[0] == params2[0]);
    assert(params1[1] == params2[1]);
    lemma_decimal_injective(session_id1, session_id2);
}

/// The query string of a request for a dataset, read at its `&`
/// separators, has four fields: the credential, the operation, the session
/// and the access key. The credential is the first of them and no other
/// field is named `key`, whatever the credential and the access key hold.
pub proof fn lemma_dataset_url_key_once(
    base_url: Seq<char>,
    api_key: Seq<char>,
    session_id: int,
    access_key: Seq<char>,
)
    ensures
        ({
            let url = dataset_url_text(base_url, api_key, session_id, access_key);
            let fields = query_fields(url.skip(base_url.len() as int + 1));
            &&& fields == seq![
                "key="@ + percent_encode(api_key),
                "op=getDataset"@,
                "id="@ + decimal(session_id),
                "access_key="@ + percent_encode(access_key),
            ]
            &&& forall|i: int|
                0 <= i < fields.len() ==> ("key="@.is_prefix_of(#[trigger] fields[i]) <==> i == 0)
        }),
{
    reveal_strlit("key=");
    reveal_strlit("op=");
    reveal_strlit("id");
    reveal_strlit("access_key");
    lemma_dataset_literals();
    lemma_percent_encode_decimal(session_id);
    lemma_dataset_url_form(base_url, api_key, session_id, access_key);
    let params = dataset_params(session_id, access_key);
    lemma_query_fields(api_key, "getDataset"@, params);
    let url = dataset_url_text(base_url, api_key, session_id, access_key);
    let query = query_text(api_key, "getDataset"@, params);
    assert(url.skip(base_url.len() as int + 1) =~= query);
    let fields = query_fields(query);
    let expected = seq![
        "key="@ + percent_encode(api_key),
        "op=getDataset"@,
        "id="@ + decimal(session_id),
        "access_key="@ + percent_encode(access_key),
    ];
    assert(fields.len() == 4);
    assert(fields[0] =~= expected[0]);
    assert(fields[1] =~= expected[1]);
    assert(fields[2] =~= expected[2]);
    assert(fields[3] =~= expected[3]);
    assert(fields =~= expected);
    assert("key="@.len() == 4 && "key="@[0] == 'k');
    assert("key="@ =~= fields[0].subrange(0, 4));
    assert("op="@[0] == 'o' && fields[1][0] == 'o');
    assert("id"@[0] == 'i' && fields[2][0] == 'i');
    assert("access_key"@[0] == 'a' && fields[3][0] == 'a');
    assert forall|i: int| 0 <= i < fields.len() implies ("key="@.is_prefix_of(
        #[trigger] fields[i],
    ) <==> i == 0) by {
        if i != 0 && "key="@.is_prefix_of(fields[i]) {
            assert(fields[i].subrange(0, 4)[0] == fields[i][0]);
        }
    }
}

/// Lengths and characters by which the field names are told apart.
proof fn lemma_field_names_differ()
    ensures
        "state_id"@.len() == 8,
        "session_id"@.len() == 10,
        "mime_type"@.len() == 9,
        "zip"@.len() == 3,
        "status"@.len() == 6,
        "dataset"@.len() == 7,
        "session_name"@.len() == 12 && "session_name"@[0] == 's',
        "dataset_hash"@.len() == 12 && "dataset_hash"@[0] == 'd' && "dataset_hash"@[8] == 'h',
        "dataset_date"@.len() == 12 && "dataset_date"@[0] == 'd' && "dataset_date"@[8] == 'd',
        "dataset_size"@.len() == 12 && "dataset_size"@[0] == 'd' && "dataset_size"@[8] == 's',
{
    reveal_strlit("state_id");
    reveal_strlit("session_id");
    reveal_strlit("session_name");
    reveal_strlit("dataset_hash");
    reveal_strlit("dataset_date");
    reveal_strlit("dataset_size");
    reveal_strlit("mime_type");
    reveal_strlit("zip");
    reveal_strlit("status");
    reveal_strlit("dataset");
}

/// A dataset written as JSON and read again is the same dataset.
pub proof fn lemma_dataset_json_roundtrip(d: DatasetView)
    ensures
        dataset_of(dataset_json(d)) == Ok::<DatasetView, Seq<char>>(d),
{
    lemma_field_names_differ();
    let j = dataset_json(d);
    assert(integer_member(j, "state_id"@) == Some(d.state_id));
    assert(integer_member(j, "session_id"@) == Some(d.session_id));
    assert(text_member(j, "session_name"@) == Some(d.session_name));
    assert(text_member(j, "dataset_hash"@) == Some(d.dataset_hash));
    assert(text_member(j, "dataset_date"@) == Some(d.dataset_date));
    assert(integer_member(j, "dataset_size"@) == Some(d.dataset_size));
    assert(text_member(j, "mime_type"@) == Some(d.mime_type));
    assert(text_member(j, "zip"@) == Some(d.zip));
}

/// A typed envelope written as JSON and read again is the same envelope;
/// and one whose status is `OK`, written as JSON, is an envelope that the
/// decoder lets pass, so that it comes back the same through the whole
/// path that a reply takes.
pub proof fn lemma_response_json_roundtrip(r: GetDatasetResponseView)
    ensures
        response_of(response_json(r)) == Ok::<GetDatasetResponseView, Seq<char>>(r),
        r.status == "OK"@ ==> envelope_verdict(response_json(r)) is None,
        r.status != "OK"@ ==> envelope_verdict(response_json(r)) == Some(ErrorView::Api(r.status)),
{
    lemma_field_names_differ();
    lemma_dataset_json_roundtrip(r.dataset);
    reveal_strlit("alert");
    assert("alert"@.len() == 5);
    let j = response_json(r);
    assert(text_member(j, "status"@) == Some(r.status));
    assert(member_of(j, "dataset"@) == Some(dataset_json(r.dataset)));
    assert(member_of(j, "alert"@) is None);
}

/// Reads the result of the operation from the transport's outcome: the
/// body text of the reply, or the transport's report of its failure.
pub fn read_dataset(reply: Result<String, String>) -> (r: Result<Dataset, Error>)
    ensures
        outcome_view(r) == dataset_outcome(reply_view(reply)),
{
    let decoded = handle_legiscan_response(reply)?;
    let typed = GetDatasetResponse::from_json(&decoded)?;
    Ok(typed.dataset)
}

impl LegiscanProxy {
    /// The URL to fetch for the dataset of the session `session_id`.
    pub fn get_dataset_url(&self, session_id: i32, access_key: &str) -> (url: String)
        ensures
            url@ == dataset_url_text(
                self@.base_url,
                self@.api_key,
                session_id as int,
                access_key@,
            ),
    {
        let mut id = String::new();
        push_decimal(&mut id, session_id);
        let mut params: Vec<(String, String)> = Vec::new();
        params.push(("id".to_owned(), id));
        params.push(("access_key".to_owned(), access_key.to_owned()));
        proof {
            lemma_dataset_url_form(
                self@.base_url,
                self@.api_key,
                session_id as int,
                access_key@,
            );
            assert(params_view(params@) =~= dataset_params(
                session_id as int,
                access_key@,
            ));
        }
        build_url(self.base_url(), self.api_key(), "getDataset", &params)
    }

    /// Retrieves the dataset of the session `session_id`: builds the URL,
    /// hands it to `transport` once, and reads the result from what the
    /// transport brings back, its body text or the report of its failure.
    pub fn get_dataset<T>(&self, session_id: i32, access_key: &str, transport: T) -> (r: Result<
        Dataset,
        Error,
    >) where T: FnOnce(String) -> Result<String, String>
        requires
            forall|url: String|
                url@ == dataset_url_text(
                    self@.base_url,
                    self@.api_key,
                    session_id as int,
                    access_key@,
                ) ==> call_requires(transport, (url,)),
        ensures
            exists|url: String, reply: Result<String, String>|
                url@ == dataset_url_text(
                    self@.base_url,
                    self@.api_key,
                    session_id as int,
                    access_key@,
                ) && #[trigger] call_ensures(transport, (url,), reply) && outcome_view(r)
                    == dataset_outcome(reply_view(reply)),
    {
        let url = self.get_dataset_url(session_id, access_key);
        let reply = transport(url);
        read_dataset(reply)
    }
}

} // verus!
