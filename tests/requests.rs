use etcd_kv::{
    DeleteRangeRequest, DeleteRangeResponse, EtcdDeleteRequest, EtcdDeleteResponse, EtcdKeyValue,
    EtcdRangeRequest, EtcdRangeResponse, KeyRange, KvError, RangeRequest, RangeResponse,
    ResponseHeader,
};

fn entry(key: &[u8], rev: i64) -> EtcdKeyValue {
    EtcdKeyValue {
        key: key.to_vec(),
        value: vec![b'v', key[0]],
        create_revision: rev,
        mod_revision: rev,
        version: 1,
        lease: 0,
    }
}

fn header(revision: i64) -> ResponseHeader {
    ResponseHeader { cluster_id: 1, member_id: 2, revision, raft_term: 3 }
}

fn keys(kvs: &[EtcdKeyValue]) -> Vec<Vec<u8>> {
    kvs.iter().map(|kv| kv.key.clone()).collect()
}

#[test]
fn range_request_defaults() {
    let req = EtcdRangeRequest::new(KeyRange::single(b"k".to_vec()).unwrap());
    assert!(req.is_single_key());
    let wire = RangeRequest::from(req);
    assert_eq!(wire.key, b"k");
    assert!(wire.range_end.is_empty());
    assert_eq!(wire.limit, 0);
    assert_eq!(wire.revision, 0);
    assert!(!wire.serializable);
    assert!(!wire.keys_only);
    assert!(!wire.count_only);
}

#[test]
fn range_request_round_trip() {
    let req = EtcdRangeRequest::new(KeyRange::prefix(b"foo".to_vec()).unwrap());
    assert!(!req.is_single_key());
    let kr = req.get_key_range();
    assert_eq!(kr.key(), b"foo");
    assert_eq!(kr.range_end(), b"fop");
}

#[test]
fn delete_request_round_trip() {
    let req = EtcdDeleteRequest::new(KeyRange::range(b"a".to_vec(), b"c".to_vec()).unwrap());
    assert_eq!(req.get_key(), b"a");
    let kr = req.get_key_range();
    assert_eq!(kr.key(), b"a");
    assert_eq!(kr.range_end(), b"c");
    let wire = DeleteRangeRequest::from(req);
    assert_eq!(wire.key, b"a");
    assert_eq!(wire.range_end, b"c");
    assert!(!wire.prev_kv);
}

#[test]
fn set_limit_reaches_the_wire() {
    let mut req = EtcdRangeRequest::new(KeyRange::all());
    req.set_limit(7);
    assert_eq!(RangeRequest::from(req).limit, 7);
    let mut req = EtcdRangeRequest::new(KeyRange::all());
    req.set_limit(7);
    req.set_limit(0);
    assert_eq!(RangeRequest::from(req).limit, 0);
}

#[test]
fn set_limit_clamps_to_wire_width() {
    let mut req = EtcdRangeRequest::new(KeyRange::all());
    req.set_limit(usize::MAX);
    assert_eq!(RangeRequest::from(req).limit, i64::MAX);
}

#[test]
fn set_revision_refuses_negative() {
    let mut req = EtcdRangeRequest::new(KeyRange::all());
    assert_eq!(req.set_revision(-1), Err(KvError::InvalidArgument));
    assert_eq!(req.set_revision(5), Ok(()));
    req.set_serializable(true);
    let wire = RangeRequest::from(req);
    assert_eq!(wire.revision, 5);
    assert!(wire.serializable);
}

#[test]
fn range_over_all_with_limit_two() {
    let store = vec![entry(b"a", 1), entry(b"b", 2), entry(b"c", 3)];
    let mut req = EtcdRangeRequest::new(KeyRange::all());
    req.set_limit(2);
    let mut resp = EtcdRangeResponse::new(req.evaluate(&store, 0, header(3)).unwrap());
    assert_eq!(keys(&resp.get_kvs()), vec![b"a".to_vec(), b"b".to_vec()]);
    assert!(resp.has_more());
    assert_eq!(resp.count(), Ok(3));
    assert_eq!(resp.take_header(), Some(header(3)));
    assert_eq!(resp.take_header(), None);
    assert_eq!(resp.take_kvs().len(), 2);
    assert!(resp.get_kvs().is_empty());
}

#[test]
fn range_limit_at_or_above_match_count() {
    let store = vec![entry(b"a", 1), entry(b"b", 2), entry(b"c", 3)];
    let mut req = EtcdRangeRequest::new(KeyRange::all());
    req.set_limit(3);
    let resp = EtcdRangeResponse::from(req.evaluate(&store, 0, header(3)).unwrap());
    assert_eq!(resp.get_kvs().len(), 3);
    assert!(!resp.has_more());
    let mut req = EtcdRangeRequest::new(KeyRange::prefix(b"b".to_vec()).unwrap());
    req.set_limit(5);
    let resp = EtcdRangeResponse::new(req.evaluate(&store, 0, header(3)).unwrap());
    assert_eq!(keys(&resp.get_kvs()), vec![b"b".to_vec()]);
    assert!(!resp.has_more());
    assert_eq!(resp.count(), Ok(1));
}

#[test]
fn range_with_no_match_is_empty() {
    let store = vec![entry(b"a", 1)];
    let req = EtcdRangeRequest::new(KeyRange::single(b"z".to_vec()).unwrap());
    let resp = EtcdRangeResponse::new(req.evaluate(&store, 0, header(1)).unwrap());
    assert!(resp.get_kvs().is_empty());
    assert!(!resp.has_more());
    assert_eq!(resp.count(), Ok(0));
}

#[test]
fn range_count_refuses_negative_wire_count() {
    let resp = EtcdRangeResponse::new(RangeResponse {
        header: None,
        kvs: Vec::new(),
        more: false,
        count: -4,
    });
    assert_eq!(resp.count(), Err(KvError::InvalidArgument));
}

#[test]
fn delete_with_no_match() {
    let mut store = vec![entry(b"a", 1), entry(b"b", 2)];
    let mut req = EtcdDeleteRequest::new(KeyRange::single(b"z".to_vec()).unwrap());
    req.set_prev_kv(true);
    let resp = EtcdDeleteResponse::new(req.evaluate(&mut store, header(2)), &req);
    assert_eq!(resp.count_deleted(), Ok(0));
    assert!(!resp.has_prev_kvs());
    assert!(resp.get_prev_kvs().is_empty());
    assert_eq!(store.len(), 2);
}

#[test]
fn delete_with_capture() {
    let mut store = vec![entry(b"a", 1), entry(b"ab", 2), entry(b"b", 3)];
    let mut req = EtcdDeleteRequest::new(KeyRange::prefix(b"a".to_vec()).unwrap());
    req.set_prev_kv(true);
    assert!(req.request_prev_kv());
    let mut resp = EtcdDeleteResponse::new(req.evaluate(&mut store, header(4)), &req);
    assert_eq!(resp.count_deleted(), Ok(2));
    assert!(resp.has_prev_kvs());
    assert_eq!(keys(&resp.get_prev_kvs()), vec![b"a".to_vec(), b"ab".to_vec()]);
    assert_eq!(resp.get_revision(), Ok(4));
    assert_eq!(keys(&resp.take_prev_kvs()), vec![b"a".to_vec(), b"ab".to_vec()]);
    assert!(!resp.has_prev_kvs());
    assert_eq!(keys(&store), vec![b"b".to_vec()]);
}

#[test]
fn delete_without_capture_drops_wire_prev_kvs() {
    let req = EtcdDeleteRequest::new(KeyRange::single(b"a".to_vec()).unwrap());
    assert!(!req.request_prev_kv());
    let wire = DeleteRangeResponse { header: Some(header(9)), deleted: 1, prev_kvs: vec![entry(b"a", 1)] };
    let resp = EtcdDeleteResponse::new(wire, &req);
    assert!(!resp.has_prev_kvs());
    assert!(resp.get_prev_kvs().is_empty());
    assert_eq!(resp.count_deleted(), Ok(1));
}

#[test]
fn delete_revision_needs_header() {
    let req = EtcdDeleteRequest::new(KeyRange::single(b"a".to_vec()).unwrap());
    let wire = DeleteRangeResponse { header: Some(header(9)), deleted: 0, prev_kvs: Vec::new() };
    let mut resp = EtcdDeleteResponse::new(wire, &req);
    assert_eq!(resp.get_revision(), Ok(9));
    assert_eq!(resp.take_header(), Some(header(9)));
    assert_eq!(resp.get_revision(), Err(KvError::MissingHeader));
}

#[test]
fn delete_count_refuses_negative_wire_count() {
    let req = EtcdDeleteRequest::new(KeyRange::single(b"a".to_vec()).unwrap());
    let wire = DeleteRangeResponse { header: None, deleted: -1, prev_kvs: Vec::new() };
    let resp = EtcdDeleteResponse::new(wire, &req);
    assert_eq!(resp.count_deleted(), Err(KvError::InvalidArgument));
    assert_eq!(resp.get_revision(), Err(KvError::MissingHeader));
}

#[test]
fn copied_entry_keeps_every_field() {
    let kv = EtcdKeyValue { key: b"k".to_vec(), value: b"v".to_vec(), create_revision: 2, mod_revision: 5, version: 3, lease: 7 };
    let c = kv.copied();
    assert_eq!(c.key, b"k");
    assert_eq!(c.value, b"v");
    assert_eq!((c.create_revision, c.mod_revision, c.version, c.lease), (2, 5, 3, 7));
}

#[test]
fn historical_read_below_compaction_fails() {
    let store = vec![entry(b"a", 1)];
    let mut req = EtcdRangeRequest::new(KeyRange::all());
    req.set_revision(3).unwrap();
    assert_eq!(req.evaluate(&store, 5, header(9)).unwrap_err(), KvError::RevisionCompacted);
    assert!(req.evaluate(&store, 3, header(9)).is_ok());
    let req = EtcdRangeRequest::new(KeyRange::all());
    assert!(req.evaluate(&store, 5, header(9)).is_ok());
}
