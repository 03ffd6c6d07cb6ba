use archsockrust::PeerInfo;

#[test]
fn test_peer_info_creation_and_validation() {
    let current_time = archsockrust::get_current_timestamp();
    
    let peer = PeerInfo {
        id: "test-peer-12345".to_string(),
        name: "Test Peer Name".to_string(),
        ip: "192.168.1.100".to_string(),
        port: 6969,
        last_seen: current_time,
    };
    
    // Validate all fields
    assert_eq!(peer.id, "test-peer-12345");
    assert_eq!(peer.name, "Test Peer Name");
    assert_eq!(peer.ip, "192.168.1.100");
    assert_eq!(peer.port, 6969);
    assert_eq!(peer.last_seen, current_time);
    
    // Test with Unicode characters
    let unicode_peer = PeerInfo {
        id: "unicode-æµ‹è¯•-ğŸš€".to_string(),
        name: "ç”¨æˆ·å ğŸŒŸ".to_string(),
        ip: "10.0.0.1".to_string(),
        port: 7000,
        last_seen: current_time,
    };
    
    assert_eq!(unicode_peer.name, "ç”¨æˆ·å ğŸŒŸ");
    assert_eq!(unicode_peer.id, "unicode-æµ‹è¯•-ğŸš€");
    
    println!("âœ… PeerInfo validation tests passed");
    println!("   Standard peer: {} at {}:{}", peer.name, peer.ip, peer.port);
    println!("   Unicode peer: {} ({})", unicode_peer.name, unicode_peer.id);
}

#[test]
fn test_string_encoding_and_unicode() {
    // Test string handling, especially Unicode support
    
    let test_strings = vec![
        ("ASCII only", "Hello World"),
        ("Latin-1", "CafÃ© seÃ±orita"),
        ("Chinese", "ä½ å¥½ä¸–ç•Œ"),
        ("Japanese", "ã“ã‚“ã«ã¡ã¯"),
        ("Russian", "ĞŸÑ€Ğ¸Ğ²ĞµÑ‚ Ğ¼Ğ¸Ñ€"),
        ("Emoji", "Hello ğŸ‘‹ World ğŸŒ"),
        ("Mixed", "Test æµ‹è¯• ğŸš€ Ğ¢ĞµÑÑ‚"),
        ("Empty", ""),
    ];
    
    for (description, test_str) in test_strings {
        // Test string length calculations
        let byte_len = test_str.len();
        let char_count = test_str.chars().count();
        
        println!("âœ… {}: '{}' ({} bytes, {} chars)", description, test_str, byte_len, char_count);
        
        // Test that string is valid UTF-8 (should always be true in Rust)
        assert!(std::str::from_utf8(test_str.as_bytes()).is_ok(), "Should be valid UTF-8");
        
        // Test conversion to/from String
        let owned_string = test_str.to_string();
        assert_eq!(owned_string.as_str(), test_str, "String conversion should preserve content");
        
        // Test clone operation
        let cloned = owned_string.clone();
        assert_eq!(cloned, owned_string, "Clone should be equal");
        
        // Test that we can create PeerInfo with this string
        let peer = PeerInfo {
            id: format!("id-{}", description.to_lowercase().replace(' ', "-")),
            name: test_str.to_string(),
            ip: "127.0.0.1".to_string(),
            port: 6969,
            last_seen: archsockrust::get_current_timestamp(),
        };
        
        assert_eq!(peer.name, test_str, "PeerInfo should preserve Unicode in name");
    }
}
