use kinetic_atlas::dns_tree::DnsTreeWalk;

fn txts(v: &[&str]) -> Vec<Vec<u8>> {
    v.iter().map(|s| s.as_bytes().to_vec()).collect()
}

#[test]
fn flat_addresses_without_root() {
    let mut w = DnsTreeWalk::new("seed.kin".to_string());
    w.absorb_root(&txts(&["/ip4/1.2.3.4/tcp/6170", "/ip6/::1/tcp/1", "/ip4/bad", "hello"]));
    assert_eq!(w.addresses(), &vec!["/ip4/1.2.3.4/tcp/6170".to_string(), "/ip6/::1/tcp/1".to_string()]);
    assert_eq!(w.next_lookup(), None);
    assert_eq!(w.next_lookup(), None);
}

#[test]
fn invalid_utf8_is_ignored() {
    let mut w = DnsTreeWalk::new("seed.kin".to_string());
    w.absorb_root(&vec![vec![0xff, 0xfe], b"/ip4/1.2.3.4/tcp/1".to_vec()]);
    assert_eq!(w.addresses().len(), 1);
}

#[test]
fn tree_is_walked_depth_first() {
    let mut w = DnsTreeWalk::new("seed.kin".to_string());
    w.absorb_root(&txts(&["kintree-root:v1 e=ROOT seq=1"]));
    assert_eq!(w.next_lookup(), Some("ROOT.seed.kin".to_string()));
    w.absorb_branch(&txts(&["kintree-branch:A,,B", "kintree-leaf:/ip4/9.9.9.9/tcp/1"]));
    assert_eq!(w.addresses(), &vec!["/ip4/9.9.9.9/tcp/1".to_string()]);
    assert_eq!(w.next_lookup(), Some("B.seed.kin".to_string()));
    w.absorb_branch(&txts(&["kintree-branch:A,ROOT"]));
    // ROOT was looked up already; A is next, and the earlier copy of A is passed over.
    assert_eq!(w.next_lookup(), Some("A.seed.kin".to_string()));
    w.absorb_branch(&txts(&["kintree-leaf:kintree-leaf:/ip4/8.8.8.8/tcp/2"]));
    assert_eq!(w.next_lookup(), None);
    assert_eq!(
        w.addresses(),
        &vec!["/ip4/9.9.9.9/tcp/1".to_string(), "/ip4/8.8.8.8/tcp/2".to_string()]
    );
}

#[test]
fn root_hash_takes_the_first_word() {
    let mut w = DnsTreeWalk::new("d".to_string());
    w.absorb_root(&txts(&["kintree-root:v1 e=  H1  x e=H2"]));
    assert_eq!(w.next_lookup(), Some("H1.d".to_string()));
    let mut w = DnsTreeWalk::new("d".to_string());
    w.absorb_root(&txts(&["kintree-root:v1 e=   "]));
    assert_eq!(w.next_lookup(), Some("   .d".to_string()));
    let mut w = DnsTreeWalk::new("d".to_string());
    w.absorb_root(&txts(&["kintree-root:v1 no hash"]));
    assert_eq!(w.next_lookup(), None);
    let mut w = DnsTreeWalk::new("d".to_string());
    w.absorb_root(&txts(&["kintree-root:v1 e=FIRST", "kintree-root:v1 e=LAST"]));
    assert_eq!(w.next_lookup(), Some("LAST.d".to_string()));
}

#[test]
fn lookups_stop_after_twenty() {
    let mut w = DnsTreeWalk::new("d".to_string());
    w.absorb_root(&txts(&["kintree-root:v1 e=R"]));
    let mut n = 0;
    let mut i = 0;
    while let Some(_) = w.next_lookup() {
        n += 1;
        i += 1;
        w.absorb_branch(&txts(&[&format!("kintree-branch:b{}", i)]));
    }
    assert_eq!(n, 20);
}

#[test]
fn addresses_budget_ends_the_walk() {
    let mut w = DnsTreeWalk::new("d".to_string());
    w.absorb_root(&txts(&["kintree-root:v1 e=R"]));
    assert_eq!(w.next_lookup(), Some("R.d".to_string()));
    let mut branch: Vec<String> = (0..50).map(|i| format!("kintree-leaf:/ip4/10.0.0.{}/tcp/1", i)).collect();
    branch.push("kintree-branch:S".to_string());
    let raw: Vec<Vec<u8>> = branch.iter().map(|s| s.as_bytes().to_vec()).collect();
    w.absorb_branch(&raw);
    assert_eq!(w.addresses().len(), 50);
    assert_eq!(w.next_lookup(), None);
}

#[test]
fn flat_addresses_are_only_a_fallback() {
    let mut w = DnsTreeWalk::new("d".to_string());
    w.absorb_root(&txts(&["/ip4/1.2.3.4/tcp/1", "kintree-root:v1 e=H", "/ip4/1.2.3.5/tcp/1"]));
    assert!(w.addresses().is_empty());
    assert_eq!(w.next_lookup(), Some("H.d".to_string()));
    w.absorb_branch(&txts(&["kintree-leaf:/ip4/5.6.7.8/tcp/2"]));
    assert_eq!(w.next_lookup(), None);
    assert_eq!(w.addresses(), &vec!["/ip4/5.6.7.8/tcp/2".to_string()]);
}

#[test]
fn addresses_are_kept_in_canonical_form() {
    let mut w = DnsTreeWalk::new("d".to_string());
    w.absorb_root(&txts(&["/ip6/0:0:0:0:0:0:0:1/tcp/1"]));
    assert_eq!(w.addresses(), &vec!["/ip6/::1/tcp/1".to_string()]);
    let mut w = DnsTreeWalk::new("d".to_string());
    w.absorb_root(&txts(&["kintree-root:v1 e=R"]));
    assert_eq!(w.next_lookup(), Some("R.d".to_string()));
    w.absorb_branch(&txts(&["kintree-leaf:/ip6/2001:db8:0:0:0:0:0:1/tcp/2"]));
    assert_eq!(w.addresses(), &vec!["/ip6/2001:db8::1/tcp/2".to_string()]);
}
