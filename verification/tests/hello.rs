use soroban_sdk::{Address, Env};
use todo_render::hello::HelloContract;
use todo_render::host::{account_id, page_bytes};

const VIEWER: &str = "GA7QYNF7SOWQ3GLR2BGMZEHXAVIRZA4KVWLTJJFC7MGXUA74P7UJVSGZ";

#[test]
fn test_render_without_wallet() {
    let env = Env::default();
    let client = HelloContract;

    let result = page_bytes(&env, &client.render(None, None)).unwrap();

    let mut bytes_vec: [u8; 256] = [0; 256];
    let len = result.len() as usize;
    for i in 0..len {
        if let Some(b) = result.get(i as u32) {
            bytes_vec[i] = b;
        }
    }
    let output = core::str::from_utf8(&bytes_vec[..len]).unwrap();

    assert!(output.contains("Hello, World!"));
    assert!(output.contains("Connect your wallet"));
}

#[test]
fn test_render_with_wallet() {
    let env = Env::default();
    let client = HelloContract;

    let viewer = Address::from_str(&env, VIEWER);
    let result = page_bytes(&env, &client.render(None, Some(&account_id(&viewer)))).unwrap();

    let mut bytes_vec: [u8; 256] = [0; 256];
    let len = result.len() as usize;
    for i in 0..len {
        if let Some(b) = result.get(i as u32) {
            bytes_vec[i] = b;
        }
    }
    let output = core::str::from_utf8(&bytes_vec[..len]).unwrap();

    assert!(output.contains("Hello, Stellar User!"));
    assert!(output.contains("wallet is connected"));
}

#[test]
fn greeting_is_exact_and_ignores_the_path() {
    let env = Env::default();
    let client = HelloContract;
    let viewer = account_id(&Address::from_str(&env, VIEWER));

    assert_eq!(
        String::from_utf8(client.render(Some(b"/anything".as_slice()), None)).unwrap(),
        "# Hello, World!\n\nConnect your wallet to see a personalized greeting.\n\nThis UI is rendered directly from the smart contract."
    );
    assert_eq!(
        String::from_utf8(client.render(Some(b"/tasks".as_slice()), Some(&viewer))).unwrap(),
        "# Hello, Stellar User!\n\nYour wallet is connected.\n\nWelcome to **Soroban Render** - where your smart contract IS your frontend."
    );
}
