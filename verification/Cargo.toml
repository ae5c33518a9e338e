[package]
name = "reward_oracle"
version = "0.1.0"
edition = "2021"
publish = false

[dependencies]
ethers-core = "=2.0.8"
ethers-signers = { version = "=2.0.8", features = ["aws"] }
ethers-providers = { version = "=2.0.8", default-features = false, features = ["rustls"] }
hex = "=0.4.3"
sha2 = "=0.10.9"
anyhow = "=1.0.104"
async-trait = "=0.1.92"
clap = { version = "=4.6.7", default-features = false, features = ["std", "derive", "env", "help", "usage", "error-context"] }
dotenv = "=0.15.0"
env_logger = { version = "=0.10.2", default-features = false }
log = "0.4"
reqwest = { version = "=0.11.27", default-features = false, features = ["json", "rustls-tls"] }
rusoto_core = { version = "=0.48.0", default-features = false, features = ["rustls"] }
rusoto_kms = { version = "=0.48.0", default-features = false, features = ["rustls"] }
serde = { version = "=1.0.229", features = ["derive"] }
serde_json = "1"
serde_with = "=2.3.3"
thiserror = "=1.0.69"
tokio = { version = "=1.54.1", features = ["macros", "rt-multi-thread", "time"] }
