[package]
name = "chat_infra"
version = "0.1.0"
edition = "2021"
publish = false

[dependencies]
base64 = "=0.21.7"
chrono = "=0.4.45"
ulid = "=1.2.1"
serde = { version = "=1.0.229", features = ["derive"] }
serde_json = "=1.0.154"
serde_dynamo = "=4.3.0"
tokio = { version = "=1.54.1", features = ["macros", "rt-multi-thread"] }
aws-config = { version = "=1.13.0", default-features = false, features = ["rt-tokio", "default-https-client", "credentials-process"] }
aws-sdk-dynamodb = { version = "=1.134.0", default-features = false, features = ["rt-tokio", "default-https-client"] }
aws-sdk-apigatewaymanagement = { version = "=1.118.0", default-features = false, features = ["rt-tokio", "default-https-client"] }
aws-sdk-cognitoidentityprovider = { version = "=1.142.0", default-features = false, features = ["rt-tokio", "default-https-client"] }
aws-sdk-s3 = { version = "=1.155.0", default-features = false, features = ["rt-tokio", "default-https-client"] }
aws_lambda_events = "=1.2.1"
lambda_http = "=1.3.2"
lambda_runtime = "=1.5.0"
jsonwebtokens-cognito = "=0.1.1"
initials-revamped = "=0.1.2"
image = "=0.24.9"
