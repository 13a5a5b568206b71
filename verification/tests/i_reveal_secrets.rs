use precompile_core::i_reveal_secrets::{
    i_know_what_i_am_doing, shout_this_secret, Secret, SigningKey, SigningShare,
};

#[test]
fn secret_is_written_only_where_asked_for() {
    let key = SigningKey::new(vec![1, 2, 3, 15, 16]);
    let shouted = shout_this_secret::<true, _>(&key, i_know_what_i_am_doing().i_swear());
    assert_eq!(shouted, "0x0102030f10");
    let kept = shout_this_secret::<false, _>(&key, i_know_what_i_am_doing().i_swear());
    assert_eq!(kept, "");
}

#[test]
fn shares_are_written_in_lower_case_hex() {
    let share = SigningShare::new(vec![0xAB, 0xCD, 0xEF, 0x00, 0xff]);
    assert_eq!(share.shout_the_secret(), "0xabcdef00ff");
    assert_eq!(SigningShare::new(vec![]).shout_the_secret(), "0x");
    assert_eq!(
        shout_this_secret::<true, _>(&share, i_know_what_i_am_doing().i_swear()),
        "0xabcdef00ff"
    );
}

struct Plain(&'static str);

impl Secret for Plain {
    fn shout_the_secret(&self) -> String {
        self.0.to_string()
    }
}

#[test]
fn any_secret_can_be_shouted() {
    let secret = Plain("hunter2");
    assert_eq!(
        shout_this_secret::<true, _>(&secret, i_know_what_i_am_doing().i_swear()),
        "hunter2"
    );
    assert_eq!(
        shout_this_secret::<false, _>(&secret, i_know_what_i_am_doing().i_swear()),
        ""
    );
}
