use aquic::backend::cid::{
    ConnectionIdGeneratorAdapter, ConnectionIdMeta, InvalidCid, RandConnIdGenerator,
    RandomIdGenerator,
};
use aquic::backend::{ConnectionId, ConnectionIdGenerator, IdError, MAX_CID_LEN};
use aquic::time::Duration;

#[test]
fn connection_id_is_its_bytes() {
    let id = ConnectionId::try_from_slice(&[1, 2, 3]).unwrap();
    assert_eq!(id.as_slice(), &[1, 2, 3]);
    assert_eq!(id.len(), 3);
    assert!(!id.is_empty());
    assert_eq!(id.to_vec(), vec![1, 2, 3]);
    assert_eq!(id.to_text(), "010203");
    assert!(ConnectionId::default().is_empty());
    assert_eq!(ConnectionId::default().as_slice(), &[] as &[u8]);
}

#[test]
fn connection_id_has_at_most_twenty_bytes() {
    assert_eq!(MAX_CID_LEN, 20);
    assert_eq!(ConnectionId::try_from_slice(&[7; 20]).unwrap().len(), 20);
    assert!(ConnectionId::try_from_slice(&[7; 21]).is_none());
    assert_eq!(ConnectionId::try_from_iter(vec![7; 20].into_iter()).unwrap().len(), 20);
    assert!(ConnectionId::try_from_iter(vec![7; 21].into_iter()).is_none());
    assert_eq!(ConnectionId::try_from_iter([1, 2, 3].into_iter()).unwrap().as_slice(), &[1, 2, 3]);
    // An iterator without an end is not read beyond one byte too many.
    let mut asked = 0;
    let endless = std::iter::repeat_with(|| {
        asked += 1;
        7
    });
    assert!(ConnectionId::try_from_iter(endless).is_none());
    assert_eq!(asked, 21);
    assert_eq!(ConnectionId::from_array([9; 20]).as_slice(), &[9; 20]);
}

#[test]
fn connection_ids_are_equal_by_their_bytes() {
    let id = ConnectionId::try_from_slice(&[1, 2]).unwrap();
    assert!(id == ConnectionId::try_from_slice(&[1, 2]).unwrap());
    assert!(id != ConnectionId::try_from_slice(&[1, 2, 0]).unwrap());
    assert!(id != ConnectionId::try_from_slice(&[1, 3]).unwrap());
}

#[test]
fn connection_id_is_written_in_place() {
    let mut id = ConnectionId::try_from_slice(&[1, 2, 3]).unwrap();
    id.as_mut_slice()[1] = 0xff;
    assert_eq!(id.as_slice(), &[1, 0xff, 3]);
    assert_eq!(id.as_mut_slice().len(), 3);
}

#[test]
fn invalid_connection_id_is_described() {
    let error = IdError {
        original: ConnectionId::try_from_slice(&[0xab, 0xcd]).unwrap(),
        detail: String::from("no key"),
    };
    assert_eq!(error.message(), "connection-id 'abcd' is invalid: no key");
}

#[test]
fn random_connection_ids_have_their_length() {
    let generator = RandomIdGenerator::new(16);
    let (a, b) = (generator.generate(), generator.generate());
    assert_eq!((a.len(), generator.cid_len()), (16, 16));
    assert!(a != b);
    assert!(generator.validate(&a));
    assert!(!generator.validate(&ConnectionId::default()));
    let mut decrypted = a;
    assert!(generator.decrypt(&mut decrypted).is_ok());
    assert!(decrypted == a);
    assert!(generator.parse(&a).is_ok());
    assert_eq!(().core_id(), None);

    assert!(RandomIdGenerator::new(0).generate().is_empty());

    let generator = RandConnIdGenerator::new(20);
    assert_eq!(generator.generate().len(), 20);
    assert_eq!(generator.cid_len(), 20);
    assert!(generator.validate(&generator.generate()));
    assert!(generator.decrypt(&mut generator.generate()).is_ok());
    assert!(generator.parse(&generator.generate()).is_ok());
}

/// Connection IDs begin with a one, once decrypted.
struct Masked;

impl ConnectionIdGenerator for Masked {
    type Meta = ();

    fn generate(&self) -> ConnectionId {
        ConnectionId::try_from_slice(&[1, 2, 3, 4]).unwrap()
    }

    fn cid_len(&self) -> usize {
        4
    }

    fn validate(&self, cid: &ConnectionId) -> bool {
        cid.len() == 4 && cid.as_slice()[0] == 1
    }

    fn decrypt(&self, cid: &mut ConnectionId) -> Result<(), IdError> {
        if cid.is_empty() {
            return Err(IdError { original: *cid, detail: String::from("empty") });
        }
        for byte in cid.as_mut_slice() {
            *byte ^= 0xff;
        }
        Ok(())
    }

    fn parse(&self, _cid: &ConnectionId) -> Result<(), IdError> {
        Ok(())
    }
}

#[test]
fn adapter_accepts_plain_and_encrypted_connection_ids() {
    let adapter = ConnectionIdGeneratorAdapter::new(Masked, Some(Duration::from_secs(9)));
    assert_eq!(adapter.cid_len(), 4);
    assert_eq!(adapter.cid_lifetime(), Some(Duration::from_secs(9)));
    assert_eq!(adapter.generate_cid().as_slice(), &[1, 2, 3, 4]);
    let clone = adapter.clone();
    assert_eq!((clone.cid_len(), clone.cid_lifetime()), (4, Some(Duration::from_secs(9))));
    assert_eq!(clone.generate_cid().as_slice(), &[1, 2, 3, 4]);
    assert_eq!(clone.validate(&[2, 9, 9, 9]), Err(InvalidCid));
    assert_eq!(adapter.validate(&[1, 9, 9, 9]), Ok(()));
    assert_eq!(adapter.validate(&[0xfe, 9, 9, 9]), Ok(()));
    assert_eq!(adapter.validate(&[2, 9, 9, 9]), Err(InvalidCid));
    assert_eq!(adapter.validate(&[]), Err(InvalidCid));
    assert_eq!(adapter.validate(&[1; 21]), Err(InvalidCid));
}
